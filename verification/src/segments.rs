//! Splitting a path into the segments between its separators.

use vstd::prelude::*;
use vstd::string::StrSliceExecFns;

verus! {

/// The character that separates the segments of a path.
pub const SEPARATOR: char = '/';

/// The views of a sequence of strings, in the same order.
pub open spec fn texts(strings: Seq<String>) -> Seq<Seq<char>> {
    strings.map_values(|s: String| s@)
}

/// The position of the first separator in `path`, or the length of `path`
/// where it holds none.
pub open spec fn first_separator(path: Seq<char>) -> nat
    decreases path.len(),
{
    if path.len() == 0 || path[0] == SEPARATOR {
        0
    } else {
        1 + first_separator(path.drop_first())
    }
}

/// The segments of `path`: the text before its first separator, followed by
/// the segments of the text after that separator. A path without a separator
/// is one segment, so a separator at either end yields an empty segment there.
pub open spec fn split_segments(path: Seq<char>) -> Seq<Seq<char>>
    decreases path.len(),
{
    let cut = first_separator(path);
    if cut >= path.len() {
        seq![path]
    } else {
        seq![path.subrange(0, cut as int)] + split_segments(
            path.subrange(cut as int + 1, path.len() as int),
        )
    }
}

/// A position before which no separator stands, and which is the end of
/// the path or holds a separator, is the first separator's position.
pub proof fn lemma_first_separator(path: Seq<char>, cut: int)
    requires
        0 <= cut <= path.len(),
        forall|k: int| 0 <= k < cut ==> path[k] != SEPARATOR,
        cut == path.len() || path[cut] == SEPARATOR,
    ensures
        first_separator(path) == cut,
    decreases cut,
{
    if cut > 0 {
        let rest = path.drop_first();
        assert forall|k: int| 0 <= k < cut - 1 implies rest[k] != SEPARATOR by {
            assert(rest[k] == path[k + 1]);
        }
        lemma_first_separator(rest, cut - 1);
    }
}

/// The first separator lies within the path or at its end, and nothing before
/// it is a separator.
pub proof fn lemma_first_separator_bounds(path: Seq<char>)
    ensures
        first_separator(path) <= path.len(),
        first_separator(path) < path.len() ==> path[first_separator(path) as int] == SEPARATOR,
        forall|k: int| 0 <= k < first_separator(path) ==> path[k] != SEPARATOR,
    decreases path.len(),
{
    if path.len() != 0 && path[0] != SEPARATOR {
        let rest = path.drop_first();
        lemma_first_separator_bounds(rest);
        assert forall|k: int| 0 <= k < first_separator(path) implies path[k] != SEPARATOR by {
            if k > 0 {
                assert(path[k] == rest[k - 1]);
            }
        }
    }
}

/// No segment of a path holds a separator.
pub proof fn law_segments_hold_no_separator(path: Seq<char>)
    ensures
        forall|i: int, k: int|
            0 <= i < split_segments(path).len() && 0 <= k < split_segments(path)[i].len()
                ==> split_segments(path)[i][k] != SEPARATOR,
    decreases path.len(),
{
    lemma_first_separator_bounds(path);
    let cut = first_separator(path);
    if cut < path.len() {
        let rest = path.subrange(cut as int + 1, path.len() as int);
        law_segments_hold_no_separator(rest);
        assert forall|i: int, k: int|
            0 <= i < split_segments(path).len() && 0 <= k < split_segments(path)[i].len()
            implies split_segments(path)[i][k] != SEPARATOR by {
            if i > 0 {
                assert(split_segments(path)[i] == split_segments(rest)[i - 1]);
            }
        }
    }
}

/// The segments of a path, put together again with one separator between each
/// two neighbours.
pub open spec fn join_segments(segments: Seq<Seq<char>>) -> Seq<char>
    decreases segments.len(),
{
    if segments.len() == 0 {
        Seq::empty()
    } else if segments.len() == 1 {
        segments[0]
    } else {
        segments[0] + seq![SEPARATOR] + join_segments(segments.drop_first())
    }
}

/// Splitting loses nothing: the segments of a path, joined by separators, are
/// the path.
pub proof fn law_join_of_split(path: Seq<char>)
    ensures
        join_segments(split_segments(path)) == path,
    decreases path.len(),
{
    lemma_first_separator_bounds(path);
    let cut = first_separator(path);
    if cut < path.len() {
        let rest = path.subrange(cut as int + 1, path.len() as int);
        let parts = split_segments(path);
        law_join_of_split(rest);
        assert(parts.drop_first() =~= split_segments(rest));
        assert(parts[0] + seq![SEPARATOR] + rest =~= path);
    } else {
        assert(split_segments(path) =~= seq![path]);
    }
}

/// Splits `path` at every separator.
///
/// Each character is looked up by its position, so the time taken grows with
/// the square of the path's length.
pub fn split_path(path: &str) -> (segments: Vec<String>)
    ensures
        texts(segments@) == split_segments(path@),
{
    let n: usize = path.unicode_len();
    let mut segments: Vec<String> = Vec::new();
    let mut start: usize = 0;
    let mut i: usize = 0;
    assert(path@.subrange(0, n as int) =~= path@);
    assert(texts(segments@) + split_segments(path@) =~= split_segments(path@));
    while i < n
        invariant
            n == path@.len(),
            start <= i <= n,
            forall|k: int| start <= k < i ==> path@[k] != SEPARATOR,
            split_segments(path@) == texts(segments@) + split_segments(
                path@.subrange(start as int, n as int),
            ),
        decreases n - i,
    {
        if path.get_char(i) == SEPARATOR {
            let segment: String = path.substring_char(start, i).to_owned();
            proof {
                let tail = path@.subrange(start as int, n as int);
                lemma_first_separator(tail, i - start);
                assert(tail.subrange(0, i - start) =~= segment@);
                assert(tail.subrange(i - start + 1, tail.len() as int) =~= path@.subrange(
                    i + 1,
                    n as int,
                ));
                assert(texts(segments@.push(segment)) =~= texts(segments@) + seq![segment@]);
            }
            segments.push(segment);
            start = i + 1;
        }
        i += 1;
    }
    let last: String = path.substring_char(start, n).to_owned();
    proof {
        lemma_first_separator(last@, last@.len() as int);
        assert(texts(segments@.push(last)) =~= texts(segments@) + seq![last@]);
    }
    segments.push(last);
    segments
}

} // verus!
