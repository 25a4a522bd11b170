//! The parameters that a match captures from a path: a small map from names
//! to texts.

use vstd::prelude::*;

verus! {

/// No two entries have the same name.
pub open spec fn distinct_names(entries: Seq<(String, String)>) -> bool {
    forall|i: int, j: int|
        0 <= i < j < entries.len() ==> (#[trigger] entries[i]).0@ != (#[trigger] entries[j]).0@
}

/// Some entry has the name `name`.
pub open spec fn has_name(entries: Seq<(String, String)>, name: Seq<char>) -> bool {
    exists|i: int| 0 <= i < entries.len() && (#[trigger] entries[i]).0@ == name
}

/// The position of an entry named `name`.
pub open spec fn position_of(entries: Seq<(String, String)>, name: Seq<char>) -> int {
    choose|i: int| 0 <= i < entries.len() && (#[trigger] entries[i]).0@ == name
}

/// The map that a list of entries with distinct names stands for.
pub open spec fn map_of(entries: Seq<(String, String)>) -> Map<Seq<char>, Seq<char>> {
    Map::new(
        |name: Seq<char>| has_name(entries, name),
        |name: Seq<char>| entries[position_of(entries, name)].1@,
    )
}

/// Where names are distinct, an entry's name is found at that entry.
pub proof fn lemma_position_of(entries: Seq<(String, String)>, i: int)
    requires
        distinct_names(entries),
        0 <= i < entries.len(),
    ensures
        has_name(entries, entries[i].0@),
        position_of(entries, entries[i].0@) == i,
{
    let found = position_of(entries, entries[i].0@);
    if found < i {
        assert(entries[found].0@ != entries[i].0@);
    } else if i < found {
        assert(entries[i].0@ != entries[found].0@);
    }
}

/// Adding an entry under a name that is not yet there adds it to the map.
pub proof fn lemma_map_of_push(entries: Seq<(String, String)>, entry: (String, String))
    requires
        distinct_names(entries),
        !has_name(entries, entry.0@),
    ensures
        distinct_names(entries.push(entry)),
        map_of(entries.push(entry)) == map_of(entries).insert(entry.0@, entry.1@),
{
    let longer = entries.push(entry);
    assert forall|i: int, j: int| 0 <= i < j < longer.len() implies (#[trigger] longer[i]).0@ != (
    #[trigger] longer[j]).0@ by {
        if j == entries.len() {
            assert(entries[i].0@ != entry.0@);
        } else {
            assert(entries[i].0@ != entries[j].0@);
        }
    }
    assert forall|name: Seq<char>| has_name(longer, name) <==> (has_name(entries, name) || name
        == entry.0@) by {
        if has_name(longer, name) {
            let i = position_of(longer, name);
            if i < entries.len() {
                assert(entries[i].0@ == name);
            }
        }
        if has_name(entries, name) {
            let i = position_of(entries, name);
            assert(longer[i].0@ == name);
        }
        if name == entry.0@ {
            assert(longer[entries.len() as int].0@ == name);
        }
    }
    assert forall|name: Seq<char>| has_name(longer, name) implies #[trigger] map_of(longer)[name]
        == map_of(entries).insert(entry.0@, entry.1@)[name] by {
        let i = position_of(longer, name);
        lemma_position_of(longer, i);
        if i < entries.len() {
            assert(entries[i].0@ == name);
            lemma_position_of(entries, i);
        }
    }
    assert(map_of(longer) =~= map_of(entries).insert(entry.0@, entry.1@));
}

/// Replacing an entry by one of the same name replaces its value in the map.
pub proof fn lemma_map_of_update(entries: Seq<(String, String)>, at: int, entry: (String, String))
    requires
        distinct_names(entries),
        0 <= at < entries.len(),
        entries[at].0@ == entry.0@,
    ensures
        distinct_names(entries.update(at, entry)),
        map_of(entries.update(at, entry)) == map_of(entries).insert(entry.0@, entry.1@),
{
    let changed = entries.update(at, entry);
    assert forall|i: int, j: int| 0 <= i < j < changed.len() implies (#[trigger] changed[i]).0@ != (
    #[trigger] changed[j]).0@ by {
        assert(entries[i].0@ != entries[j].0@);
    }
    assert forall|name: Seq<char>| has_name(changed, name) <==> (has_name(entries, name) || name
        == entry.0@) by {
        if has_name(changed, name) {
            let i = position_of(changed, name);
            assert(entries[i].0@ == name);
        }
        if has_name(entries, name) {
            let i = position_of(entries, name);
            assert(changed[i].0@ == name);
        }
        if name == entry.0@ {
            assert(changed[at].0@ == name);
        }
    }
    assert forall|name: Seq<char>| has_name(changed, name) implies #[trigger] map_of(changed)[name]
        == map_of(entries).insert(entry.0@, entry.1@)[name] by {
        let i = position_of(changed, name);
        lemma_position_of(changed, i);
        assert(entries[i].0@ == name);
        lemma_position_of(entries, i);
    }
    assert(map_of(changed) =~= map_of(entries).insert(entry.0@, entry.1@));
}

/// The parameters captured from a path, each name bound to one text.
#[derive(Debug)]
pub struct PathParams {
    entries: Vec<(String, String)>,
}

impl View for PathParams {
    type V = Map<Seq<char>, Seq<char>>;

    closed spec fn view(&self) -> Map<Seq<char>, Seq<char>> {
        map_of(self.entries@)
    }
}

impl PathParams {
    #[verifier::type_invariant]
    spec fn names_are_distinct(&self) -> bool {
        distinct_names(self.entries@)
    }

    /// No parameters.
    pub fn new() -> (params: PathParams)
        ensures
            params@ == Map::<Seq<char>, Seq<char>>::empty(),
    {
        let params = PathParams { entries: Vec::new() };
        assert(params@ =~= Map::<Seq<char>, Seq<char>>::empty());
        params
    }

    /// The parameters with `name` bound to `value`. A value that `name` was
    /// bound to before is forgotten.
    pub fn bind(self, name: String, value: String) -> (bound: PathParams)
        ensures
            bound@ == self@.insert(name@, value@),
    {
        proof {
            use_type_invariant(&self);
        }
        let mut entries: Vec<(String, String)> = self.entries;
        let n: usize = entries.len();
        let mut i: usize = 0;
        while i < n
            invariant
                n == entries.len(),
                i <= n,
                entries == self.entries,
                distinct_names(entries@),
                forall|k: int| 0 <= k < i ==> (#[trigger] entries@[k]).0@ != name@,
            decreases n - i,
        {
            if entries[i].0 == name {
                proof {
                    lemma_map_of_update(entries@, i as int, (name, value));
                }
                entries.set(i, (name, value));
                return PathParams { entries };
            }
            i += 1;
        }
        proof {
            lemma_map_of_push(entries@, (name, value));
        }
        entries.push((name, value));
        PathParams { entries }
    }

    /// The text that `name` is bound to, if it is bound.
    pub fn get(&self, name: &str) -> (value: Option<&String>)
        ensures
            match value {
                Some(text) => self@.contains_key(name@) && self@[name@] == text@,
                None => !self@.contains_key(name@),
            },
    {
        proof {
            use_type_invariant(self);
        }
        let wanted: String = name.to_owned();
        let n: usize = self.entries.len();
        let mut i: usize = 0;
        while i < n
            invariant
                n == self.entries.len(),
                i <= n,
                wanted@ == name@,
                distinct_names(self.entries@),
                forall|k: int| 0 <= k < i ==> (#[trigger] self.entries@[k]).0@ != name@,
            decreases n - i,
        {
            if self.entries[i].0 == wanted {
                proof {
                    lemma_position_of(self.entries@, i as int);
                }
                return Some(&self.entries[i].1);
            }
            i += 1;
        }
        None
    }

    /// The bindings as a list, one entry for each bound name.
    pub fn entries(&self) -> (entries: &Vec<(String, String)>)
        ensures
            distinct_names(entries@),
            map_of(entries@) == self@,
    {
        proof {
            use_type_invariant(self);
        }
        &self.entries
    }
}

} // verus!
