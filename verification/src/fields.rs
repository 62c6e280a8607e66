//! The field mapping: an association from field names to replacement values.
//!
//! The mapping is supplied by the caller, one per render call, and is read
//! only.  Its mathematical content is a `Map` from the name's character
//! sequence to the value's character sequence; inserting an existing name
//! replaces its value.

use vstd::prelude::*;

verus! {

/// One name/value pair of the mapping.
struct Entry {
    name: Vec<char>,
    value: Vec<char>,
}

/// The map described by a sequence of entries, a later entry for the same
/// name shadowing an earlier one.
spec fn entries_map(s: Seq<Entry>) -> Map<Seq<char>, Seq<char>>
    decreases s.len(),
{
    if s.len() == 0 {
        Map::empty()
    } else {
        entries_map(s.drop_last()).insert(s.last().name@, s.last().value@)
    }
}

/// A name is in the map exactly when some entry carries it.
proof fn lemma_entries_map_contains(s: Seq<Entry>, k: Seq<char>)
    ensures
        entries_map(s).contains_key(k) <==> exists|i: int|
            0 <= i < s.len() && s[i].name@ == k,
    decreases s.len(),
{
    if s.len() > 0 {
        lemma_entries_map_contains(s.drop_last(), k);
        if s.last().name@ == k {
            assert(s[s.len() - 1].name@ == k);
        } else if entries_map(s.drop_last()).contains_key(k) {
            let i = choose|i: int| 0 <= i < s.drop_last().len() && s.drop_last()[i].name@ == k;
            assert(s[i].name@ == k);
        } else if exists|i: int| 0 <= i < s.len() && s[i].name@ == k {
            let i = choose|i: int| 0 <= i < s.len() && s[i].name@ == k;
            assert(s.drop_last()[i].name@ == k);
        }
    }
}

/// An entry with no later entry of the same name gives the map's value for
/// its name.
proof fn lemma_entries_map_value(s: Seq<Entry>, i: int)
    requires
        0 <= i < s.len(),
        forall|j: int| i < j < s.len() ==> s[j].name@ != s[i].name@,
    ensures
        entries_map(s).contains_key(s[i].name@),
        entries_map(s)[s[i].name@] == s[i].value@,
    decreases s.len(),
{
    if i == s.len() - 1 {
    } else {
        assert(s.drop_last()[i] == s[i]);
        lemma_entries_map_value(s.drop_last(), i);
        assert(s.last().name@ != s[i].name@);
    }
}

/// An association from field names to replacement values, with text keys,
/// case sensitive, no duplicate names.
pub struct FieldMap {
    entries: Vec<Entry>,
}

impl View for FieldMap {
    type V = Map<Seq<char>, Seq<char>>;

    closed spec fn view(&self) -> Map<Seq<char>, Seq<char>> {
        entries_map(self.entries@)
    }
}

impl FieldMap {
    /// Creates an empty mapping.
    pub fn new() -> (fm: FieldMap)
        ensures
            fm@ == Map::<Seq<char>, Seq<char>>::empty(),
    {
        FieldMap { entries: Vec::new() }
    }

    /// Adds a field, replacing the value of an already-present name.
    pub fn insert(&mut self, name: &str, value: &str)
        ensures
            final(self)@ == old(self)@.insert(name@, value@),
    {
        let e = Entry { name: crate::text::str_to_chars(name), value: crate::text::str_to_chars(value) };
        let ghost olds = self.entries@;
        self.entries.push(e);
        proof {
            assert(self.entries@.drop_last() =~= olds);
        }
    }

    /// Looks a field name up, returning its value's characters when the name
    /// is present.
    pub fn get(&self, name: &Vec<char>) -> (r: Option<&Vec<char>>)
        ensures
            match r {
                Some(v) => self@.contains_key(name@) && v@ == self@[name@],
                None => !self@.contains_key(name@),
            },
    {
        let mut i: usize = self.entries.len();
        while i > 0
            invariant
                0 <= i <= self.entries.len(),
                forall|j: int| i <= j < self.entries@.len() ==> self.entries@[j].name@ != name@,
            decreases i,
        {
            i = i - 1;
            if crate::text::chars_eq(&self.entries[i].name, name) {
                proof {
                    lemma_entries_map_value(self.entries@, i as int);
                }
                return Some(&self.entries[i].value);
            }
        }
        proof {
            lemma_entries_map_contains(self.entries@, name@);
        }
        None
    }
}

} // verus!
