//! The keys of a table by name.

use vstd::prelude::*;
use crate::code::Key;
use crate::text::{equals, to_chars};

verus! {

/// The names and keys of a table, in the order of their first declaration.
pub type Entries = Seq<(Seq<char>, Key)>;

/// Where the entry called `name` stands.
pub open spec fn position(entries: Entries, name: Seq<char>) -> Option<int>
    decreases entries.len(),
{
    if entries.len() == 0 {
        None
    } else if entries[0].0 == name {
        Some(0int)
    } else {
        match position(entries.skip(1), name) {
            Some(i) => Some(i + 1),
            None => None,
        }
    }
}

/// The key called `name`.
pub open spec fn lookup(entries: Entries, name: Seq<char>) -> Option<Key> {
    match position(entries, name) {
        Some(i) => Some(entries[i].1),
        None => None,
    }
}

/// The entries after `name` is declared as `key`: a new name comes last, a
/// name declared before keeps its place and takes the new key.
pub open spec fn inserted(entries: Entries, name: Seq<char>, key: Key) -> Entries {
    match position(entries, name) {
        Some(i) => entries.update(i, (name, key)),
        None => entries.push((name, key)),
    }
}

/// Whether no two entries have the same name.
pub open spec fn distinct_names(entries: Entries) -> bool {
    forall|i: int, j: int| 0 <= i < j < entries.len() ==> entries[i].0 != entries[j].0
}

/// `position` finds the first entry with the name, and none only where no
/// entry has it.
pub proof fn lemma_position(entries: Entries, name: Seq<char>)
    ensures
        match position(entries, name) {
            Some(i) => 0 <= i < entries.len() && entries[i].0 == name && forall|j: int|
                0 <= j < i ==> entries[j].0 != name,
            None => forall|j: int| 0 <= j < entries.len() ==> entries[j].0 != name,
        },
    decreases entries.len(),
{
    if entries.len() > 0 && entries[0].0 != name {
        let rest = entries.skip(1);
        lemma_position(rest, name);
        match position(rest, name) {
            Some(i) => {
                assert forall|j: int| 0 <= j < i + 1 implies entries[j].0 != name by {
                    if j >= 1 {
                        assert(rest[j - 1].0 != name);
                    }
                }
            },
            None => {
                assert forall|j: int| 0 <= j < entries.len() implies entries[j].0 != name by {
                    if j >= 1 {
                        assert(rest[j - 1].0 != name);
                    }
                }
            },
        }
    }
}

/// Where the first entry with the name stands, `position` says so.
pub proof fn lemma_position_is(entries: Entries, name: Seq<char>, i: int)
    requires
        0 <= i < entries.len(),
        entries[i].0 == name,
        forall|j: int| 0 <= j < i ==> entries[j].0 != name,
    ensures
        position(entries, name) == Some(i),
{
    lemma_position(entries, name);
}

/// Where no entry has the name, `position` finds none.
pub proof fn lemma_position_none(entries: Entries, name: Seq<char>)
    requires
        forall|j: int| 0 <= j < entries.len() ==> entries[j].0 != name,
    ensures
        position(entries, name) is None,
{
    lemma_position(entries, name);
}

/// A declared key is found under its name, the keys of all other names are
/// found as before, and names stay distinct.
pub proof fn lemma_inserted(entries: Entries, name: Seq<char>, key: Key, other: Seq<char>)
    ensures
        lookup(inserted(entries, name, key), name) == Some(key),
        other != name ==> lookup(inserted(entries, name, key), other) == lookup(entries, other),
        distinct_names(entries) ==> distinct_names(inserted(entries, name, key)),
{
    let after = inserted(entries, name, key);
    lemma_position(entries, name);
    lemma_position(entries, other);
    match position(entries, name) {
        Some(i) => {
            lemma_position_is(after, name, i);
            if other != name {
                match position(entries, other) {
                    Some(k) => {
                        lemma_position_is(after, other, k);
                    },
                    None => {
                        lemma_position_none(after, other);
                    },
                }
            }
        },
        None => {
            lemma_position_is(after, name, entries.len() as int);
            if other != name {
                match position(entries, other) {
                    Some(k) => {
                        lemma_position_is(after, other, k);
                    },
                    None => {
                        lemma_position_none(after, other);
                    },
                }
            }
        },
    }
}

/// Whether every key of the entries is well formed.
pub open spec fn keys_wf(entries: Entries) -> bool {
    forall|i: int| 0 <= i < entries.len() ==> (#[trigger] entries[i]).1.wf()
}

#[derive(Debug)]
struct Entry {
    name: String,
    key: Key,
}

/// The keys declared so far, each under its name.
#[derive(Debug)]
pub struct KeyTable {
    entries: Vec<Entry>,
}

impl View for KeyTable {
    type V = Entries;

    closed spec fn view(&self) -> Entries {
        Seq::new(self.entries@.len(), |i: int| (self.entries@[i].name@, self.entries@[i].key))
    }
}

impl KeyTable {
    /// Whether no two entries have the same name. A table that is made by
    /// `new` and filled by `insert` is well formed.
    pub open spec fn wf(&self) -> bool {
        distinct_names(self@)
    }

    /// A table without keys.
    pub fn new() -> (table: KeyTable)
        ensures
            table@ == Seq::<(Seq<char>, Key)>::empty(),
            table.wf(),
    {
        let table = KeyTable { entries: Vec::new() };
        table
    }

    /// The number of names.
    pub fn len(&self) -> (n: usize)
        ensures
            n == self@.len(),
    {
        self.entries.len()
    }

    fn find(&self, name: &[char]) -> (r: Option<usize>)
        ensures
            match r {
                Some(i) => position(self@, name@) == Some(i as int) && i < self@.len(),
                None => position(self@, name@) is None,
            },
    {
        let n: usize = self.entries.len();
        let mut i: usize = 0;
        while i < n
            invariant
                i <= n,
                n == self.entries@.len(),
                forall|j: int| 0 <= j < i ==> self@[j].0 != name@,
            decreases n - i,
        {
            if equals(name, self.entries[i].name.as_str()) {
                proof {
                    lemma_position_is(self@, name@, i as int);
                }
                return Some(i);
            }
            i += 1;
        }
        proof {
            lemma_position_none(self@, name@);
        }
        None
    }

    /// The key called `name`.
    pub fn get(&self, name: &str) -> (r: Option<Key>)
        ensures
            r == lookup(self@, name@),
    {
        let chars = to_chars(name);
        self.get_chars(chars.as_slice())
    }

    /// The key whose name has these characters.
    pub fn get_chars(&self, name: &[char]) -> (r: Option<Key>)
        ensures
            r == lookup(self@, name@),
    {
        match self.find(name) {
            Some(i) => Some(self.entries[i].key),
            None => None,
        }
    }

    /// Declares `name` as `key`, and gives the key that the name had before.
    /// A name declared before keeps its place and takes the new key.
    pub fn insert(&mut self, name: String, key: Key) -> (previous: Option<Key>)
        ensures
            final(self)@ == inserted(old(self)@, name@, key),
            previous == lookup(old(self)@, name@),
            old(self).wf() ==> final(self).wf(),
    {
        proof {
            lemma_inserted(self@, name@, key, name@);
        }
        let chars = to_chars(name.as_str());
        match self.find(chars.as_slice()) {
            Some(i) => {
                let previous: Key = self.entries[i].key;
                self.entries[i] = Entry { name, key };
                assert(final(self)@ =~= inserted(old(self)@, name@, key));
                Some(previous)
            },
            None => {
                self.entries.push(Entry { name, key });
                None
            },
        }
    }

    /// The keys, in the order of their first declaration.
    pub fn keys(&self) -> (keys: Vec<Key>)
        ensures
            keys@ == Seq::new(self@.len(), |i: int| self@[i].1),
    {
        let n: usize = self.entries.len();
        let mut keys: Vec<Key> = Vec::new();
        let mut i: usize = 0;
        while i < n
            invariant
                i <= n,
                n == self.entries@.len(),
                keys@ =~= Seq::new(i as nat, |k: int| self@[k].1),
            decreases n - i,
        {
            keys.push(self.entries[i].key);
            i += 1;
        }
        keys
    }
}

} // verus!
