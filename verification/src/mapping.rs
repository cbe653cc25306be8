//! An ordered mapping from text keys to text values.
//!
//! Keys are unique. Entries keep the order in which their keys were first inserted, so that
//! everything computed from a mapping is a function of its contents alone.

use vstd::prelude::*;

verus! {

/// A text, as the sequence of its characters.
pub type Text = Seq<char>;

/// The contents of a mapping: its entries as pairs of key and value, in order.
pub type Entries = Seq<(Seq<char>, Seq<char>)>;

/// No key occurs in two entries.
pub open spec fn distinct_keys(entries: Entries) -> bool {
    forall|i: int, j: int| 0 <= i < j < entries.len() ==> entries[i].0 != entries[j].0
}

/// The index of the first entry with key `key`.
pub open spec fn position(entries: Entries, key: Text) -> Option<int>
    decreases entries.len(),
{
    if entries.len() == 0 {
        None
    } else if entries[0].0 == key {
        Some(0)
    } else {
        match position(entries.skip(1), key) {
            Some(i) => Some(i + 1),
            None => None,
        }
    }
}

/// The value stored under `key`.
pub open spec fn lookup(entries: Entries, key: Text) -> Option<Text> {
    match position(entries, key) {
        Some(i) => Some(entries[i].1),
        None => None,
    }
}

/// `entries` after `key` has been set to `value`: an entry that has the key keeps its place and
/// gets the value, otherwise a new entry is added at the end.
pub open spec fn inserted(entries: Entries, key: Text, value: Text) -> Entries {
    match position(entries, key) {
        Some(i) => entries.update(i, (key, value)),
        None => entries.push((key, value)),
    }
}

/// The mapping that holds `pairs`: each pair is set in turn, so that of two pairs with one key
/// the later gives the value and the earlier the place.
pub open spec fn entries_of(pairs: Seq<(Text, Text)>) -> Entries
    decreases pairs.len(),
{
    if pairs.len() == 0 {
        Seq::empty()
    } else {
        inserted(entries_of(pairs.drop_last()), pairs.last().0, pairs.last().1)
    }
}

/// `position` finds the first entry with the key, and finds nothing only where no entry has it.
pub proof fn lemma_position(entries: Entries, key: Text)
    ensures
        match position(entries, key) {
            Some(i) => 0 <= i < entries.len() && entries[i].0 == key && forall|j: int|
                0 <= j < i ==> entries[j].0 != key,
            None => forall|j: int| 0 <= j < entries.len() ==> entries[j].0 != key,
        },
    decreases entries.len(),
{
    if entries.len() > 0 && entries[0].0 != key {
        let rest = entries.skip(1);
        lemma_position(rest, key);
        assert(forall|j: int| 0 <= j < rest.len() ==> rest[j] == entries[j + 1]);
        match position(rest, key) {
            Some(i) => {
                assert forall|j: int| 0 <= j < i + 1 implies entries[j].0 != key by {
                    if j > 0 {
                        assert(rest[j - 1] == entries[j]);
                    }
                }
            },
            None => {
                assert forall|j: int| 0 <= j < entries.len() implies entries[j].0 != key by {
                    if j > 0 {
                        assert(rest[j - 1] == entries[j]);
                    }
                }
            },
        }
    }
}

/// The first entry that has the key is the one that `position` finds.
pub proof fn lemma_position_is(entries: Entries, key: Text, i: int)
    requires
        0 <= i < entries.len(),
        entries[i].0 == key,
        forall|j: int| 0 <= j < i ==> entries[j].0 != key,
    ensures
        position(entries, key) == Some(i),
{
    lemma_position(entries, key);
}

/// Where keys are unique, every entry is found under its own key.
pub proof fn lemma_lookup_own_entry(entries: Entries, i: int)
    requires
        distinct_keys(entries),
        0 <= i < entries.len(),
    ensures
        position(entries, entries[i].0) == Some(i),
        lookup(entries, entries[i].0) == Some(entries[i].1),
{
    lemma_position(entries, entries[i].0);
}

/// Setting a key keeps the keys unique.
pub proof fn lemma_inserted_distinct(entries: Entries, key: Text, value: Text)
    requires
        distinct_keys(entries),
    ensures
        distinct_keys(inserted(entries, key, value)),
        lookup(inserted(entries, key, value), key) == Some(value),
{
    lemma_position(entries, key);
    let after = inserted(entries, key, value);
    match position(entries, key) {
        Some(i) => {
            assert(forall|j: int| 0 <= j < after.len() ==> after[j].0 == entries[j].0);
            lemma_position_is(after, key, i);
        },
        None => {
            let n = entries.len() as int;
            assert(forall|j: int| 0 <= j < n ==> after[j] == entries[j]);
            lemma_position_is(after, key, n);
        },
    }
}

/// An ordered mapping from text keys to text values, with unique keys.
#[derive(Debug)]
pub struct Mapping {
    entries: Vec<(String, String)>,
}

impl View for Mapping {
    type V = Entries;

    closed spec fn view(&self) -> Entries {
        self.entries.deep_view()
    }
}

impl DeepView for Mapping {
    type V = Entries;

    open spec fn deep_view(&self) -> Entries {
        self.view()
    }
}

impl Clone for Mapping {
    fn clone(&self) -> (out: Self)
        ensures
            out@ == self@,
    {
        proof {
            use_type_invariant(self);
        }
        let mut entries: Vec<(String, String)> = Vec::new();
        let mut i: usize = 0;
        while i < self.entries.len()
            invariant
                i <= self.entries.len(),
                entries.len() == i,
                forall|j: int|
                    0 <= j < i ==> entries[j].0@ == self.entries[j].0@ && entries[j].1@
                        == self.entries[j].1@,
            decreases self.entries.len() - i,
        {
            entries.push((self.entries[i].0.clone(), self.entries[i].1.clone()));
            i += 1;
        }
        assert(entries.deep_view() =~= self@);
        Mapping { entries }
    }
}

impl Mapping {
    #[verifier::type_invariant]
    pub closed spec fn well_formed(&self) -> bool {
        distinct_keys(self.entries.deep_view())
    }

    /// A mapping without entries.
    pub fn new() -> (out: Self)
        ensures
            out@ == Entries::empty(),
    {
        let out = Mapping { entries: Vec::new() };
        assert(out.entries.deep_view() =~= Entries::empty());
        out
    }

    /// The mapping that holds `pairs`.
    pub fn from_pairs(pairs: Vec<(String, String)>) -> (out: Self)
        ensures
            out@ == entries_of(pairs.deep_view()),
    {
        let mut out = Mapping::new();
        let ghost all = pairs.deep_view();
        let mut i: usize = 0;
        assert(all.take(0) =~= Seq::<(Text, Text)>::empty());
        while i < pairs.len()
            invariant
                i <= pairs.len(),
                all == pairs.deep_view(),
                out@ == entries_of(all.take(i as int)),
            decreases pairs.len() - i,
        {
            proof {
                assert(all.take(i + 1).drop_last() =~= all.take(i as int));
                assert(all.take(i + 1).last() == (pairs[i as int].0@, pairs[i as int].1@));
            }
            out.insert(pairs[i].0.clone(), pairs[i].1.clone());
            i += 1;
        }
        assert(all.take(i as int) =~= all);
        out
    }

    /// The number of entries.
    pub fn len(&self) -> (n: usize)
        ensures
            n == self@.len(),
    {
        self.entries.len()
    }

    /// Whether the mapping has no entries.
    pub fn is_empty(&self) -> (r: bool)
        ensures
            r == (self@.len() == 0),
    {
        self.entries.len() == 0
    }

    /// The keys of a mapping are unique.
    pub fn keys_are_distinct(&self)
        ensures
            distinct_keys(self@),
    {
        proof {
            use_type_invariant(self);
        }
    }

    /// The index of the entry with key `key`.
    pub fn find(&self, key: &str) -> (r: Option<usize>)
        ensures
            match r {
                Some(i) => position(self@, key@) == Some(i as int),
                None => position(self@, key@) is None,
            },
    {
        let mut i: usize = 0;
        while i < self.entries.len()
            invariant
                i <= self.entries.len(),
                forall|j: int| 0 <= j < i ==> self@[j].0 != key@,
            decreases self.entries.len() - i,
        {
            if self.entries[i].0.as_str().eq(key) {
                proof {
                    lemma_position_is(self@, key@, i as int);
                }
                return Some(i);
            }
            i += 1;
        }
        proof {
            lemma_position(self@, key@);
        }
        None
    }

    /// The value stored under `key`.
    pub fn get(&self, key: &str) -> (r: Option<&String>)
        ensures
            r.deep_view() == lookup(self@, key@),
    {
        match self.find(key) {
            Some(i) => {
                proof {
                    lemma_position(self@, key@);
                }
                Some(&self.entries[i].1)
            },
            None => None,
        }
    }

    /// Whether an entry has key `key`.
    pub fn contains_key(&self, key: &str) -> (r: bool)
        ensures
            r == lookup(self@, key@).is_some(),
    {
        self.find(key).is_some()
    }

    /// The key of entry `i`.
    pub fn key_at(&self, i: usize) -> (key: &String)
        requires
            i < self@.len(),
        ensures
            key@ == self@[i as int].0,
    {
        &self.entries[i].0
    }

    /// The value of entry `i`.
    pub fn value_at(&self, i: usize) -> (value: &String)
        requires
            i < self@.len(),
        ensures
            value@ == self@[i as int].1,
    {
        &self.entries[i].1
    }

    /// Sets `key` to `value`.
    pub fn insert(&mut self, key: String, value: String)
        ensures
            final(self)@ == inserted(old(self)@, key@, value@),
    {
        proof {
            use_type_invariant(&*self);
            lemma_inserted_distinct(self@, key@, value@);
        }
        let ghost before = self@;
        let found = self.find(key.as_str());
        let mut entries: Vec<(String, String)> = Vec::new();
        std::mem::swap(&mut entries, &mut self.entries);
        match found {
            Some(i) => {
                proof {
                    lemma_position(before, key@);
                }
                entries.set(i, (key, value));
            },
            None => {
                entries.push((key, value));
            },
        }
        assert(entries.deep_view() =~= inserted(before, key@, value@));
        self.entries = entries;
    }
}

} // verus!
