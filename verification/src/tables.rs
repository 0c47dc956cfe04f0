//! Lookup tables from keys to node handles.

use crate::types::{Builtin, DynBuiltin};
use vstd::prelude::*;

verus! {

/// What can key a table: a value with an identity that two keys can be tested for.
pub trait TableKey: Sized {
    /// What identifies the key.
    type Id;

    spec fn id(&self) -> Self::Id;

    /// Whether the two keys are the same.
    fn matches(&self, other: &Self) -> (b: bool)
        ensures
            b == (self.id() == other.id()),
    ;
}

impl TableKey for String {
    type Id = Seq<char>;

    open spec fn id(&self) -> Seq<char> {
        self@
    }

    fn matches(&self, other: &String) -> (b: bool) {
        *self == *other
    }
}

impl TableKey for Builtin {
    type Id = Builtin;

    open spec fn id(&self) -> Builtin {
        *self
    }

    fn matches(&self, other: &Builtin) -> (b: bool) {
        *self == *other
    }
}

impl TableKey for DynBuiltin {
    type Id = DynBuiltin;

    open spec fn id(&self) -> DynBuiltin {
        *self
    }

    fn matches(&self, other: &DynBuiltin) -> (b: bool) {
        *self == *other
    }
}

/// The handle that the latest entry for the key gives, if there is one.
pub open spec fn latest<K: TableKey>(entries: Seq<(K, usize)>, id: K::Id) -> Option<usize>
    decreases entries.len(),
{
    if entries.len() == 0 {
        None
    } else if entries.last().0.id() == id {
        Some(entries.last().1)
    } else {
        latest(entries.drop_last(), id)
    }
}

/// A table from keys to node handles. A later entry for a key replaces an earlier one.
#[derive(Debug)]
pub struct Table<K> {
    pub entries: Vec<(K, usize)>,
}

impl<K: TableKey> Table<K> {
    /// The table as a map from the identity of a key to its handle.
    pub open spec fn map(&self) -> Map<K::Id, usize> {
        Map::new(
            |id: K::Id| latest(self.entries@, id).is_some(),
            |id: K::Id| latest(self.entries@, id).unwrap(),
        )
    }

    /// The empty table.
    pub fn new() -> (t: Table<K>)
        ensures
            t.map() == Map::<K::Id, usize>::empty(),
    {
        let t = Table { entries: Vec::new() };
        assert(t.map() =~= Map::<K::Id, usize>::empty());
        t
    }

    /// The handle of a key, if the table has the key.
    pub fn get(&self, key: &K) -> (r: Option<usize>)
        ensures
            r.is_some() == self.map().contains_key(key.id()),
            r.is_some() ==> r.unwrap() == self.map()[key.id()],
    {
        let mut i: usize = self.entries.len();
        proof {
            assert(self.entries@.subrange(0, i as int) =~= self.entries@);
        }
        while i > 0
            invariant
                i <= self.entries.len(),
                latest(self.entries@, key.id()) == latest(
                    self.entries@.subrange(0, i as int),
                    key.id(),
                ),
            decreases i,
        {
            proof {
                assert(self.entries@.subrange(0, i as int).drop_last() =~= self.entries@.subrange(
                    0,
                    i - 1,
                ));
            }
            if self.entries[i - 1].0.matches(key) {
                return Some(self.entries[i - 1].1);
            }
            i = i - 1;
        }
        None
    }

    /// Gives the key the handle, whether or not the table had the key.
    pub fn insert(&mut self, key: K, handle: usize)
        ensures
            final(self).map() == old(self).map().insert(key.id(), handle),
    {
        self.entries.push((key, handle));
        proof {
            assert(self.entries@.drop_last() =~= old(self).entries@);
            assert(self.map() =~= old(self).map().insert(key.id(), handle));
        }
    }
}

} // verus!
