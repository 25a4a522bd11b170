//! Path patterns: what a route's path specification means.

use crate::segments::{split_path, split_segments};
use vstd::prelude::*;
use vstd::string::StrSliceExecFns;

verus! {

/// The character that marks a segment of a pattern as a variable.
pub const VARIABLE_MARK: char = ':';

/// One segment of a path pattern.
#[derive(Debug)]
pub enum RoutePathSegment {
    /// Matches the one segment that has this text.
    Fixed(String),
    /// Matches any segment, and binds it to this name.
    Variable(String),
}

/// What a [`RoutePathSegment`] stands for.
pub enum Segment {
    Fixed(Seq<char>),
    Variable(Seq<char>),
}

impl View for RoutePathSegment {
    type V = Segment;

    open spec fn view(&self) -> Segment {
        match self {
            RoutePathSegment::Fixed(literal) => Segment::Fixed(literal@),
            RoutePathSegment::Variable(name) => Segment::Variable(name@),
        }
    }
}

/// A path pattern: its segments in order.
#[derive(Debug)]
pub struct RoutePath(pub Vec<RoutePathSegment>);

impl View for RoutePath {
    type V = Seq<Segment>;

    open spec fn view(&self) -> Seq<Segment> {
        self.0@.map_values(|segment: RoutePathSegment| segment@)
    }
}

/// The pattern segment that `text` specifies: a variable named by what follows
/// the mark where `text` begins with the mark, else the fixed text itself.
pub open spec fn segment_of(text: Seq<char>) -> Segment {
    if text.len() > 0 && text[0] == VARIABLE_MARK {
        Segment::Variable(text.subrange(1, text.len() as int))
    } else {
        Segment::Fixed(text)
    }
}

/// The pattern that the path specification `path` stands for: one pattern
/// segment for each segment of `path`.
pub open spec fn pattern_of(path: Seq<char>) -> Seq<Segment> {
    split_segments(path).map_values(|text: Seq<char>| segment_of(text))
}

impl RoutePathSegment {
    /// Reads one segment of a path specification.
    pub fn parse(text: &str) -> (segment: RoutePathSegment)
        ensures
            segment@ == segment_of(text@),
    {
        let n: usize = text.unicode_len();
        if n > 0 && text.get_char(0) == VARIABLE_MARK {
            RoutePathSegment::Variable(text.substring_char(1, n).to_owned())
        } else {
            RoutePathSegment::Fixed(text.to_owned())
        }
    }
}

impl RoutePath {
    /// Reads a path specification such as `/users/:id`.
    pub fn parse(path: &str) -> (pattern: RoutePath)
        ensures
            pattern@ == pattern_of(path@),
    {
        let parts: Vec<String> = split_path(path);
        let mut segments: Vec<RoutePathSegment> = Vec::new();
        let mut i: usize = 0;
        while i < parts.len()
            invariant
                i <= parts.len(),
                segments.len() == i,
                forall|k: int| 0 <= k < i ==> (#[trigger] segments@[k])@ == segment_of(parts@[k]@),
            decreases parts.len() - i,
        {
            segments.push(RoutePathSegment::parse(parts[i].as_str()));
            i += 1;
        }
        let pattern = RoutePath(segments);
        assert(pattern@ =~= pattern_of(path@));
        pattern
    }

    /// The number of segments.
    pub fn len(&self) -> (n: usize)
        ensures
            n == self@.len(),
    {
        self.0.len()
    }
}

} // verus!
