//! Side storage that stages use to hand values to later stages.

use std::collections::HashMap;
use vstd::prelude::*;

verus! {

/// One stored value. The variant says how the holder reads it.
#[derive(Debug)]
pub enum ExtensionValue {
    Flag(bool),
    Number(u64),
    Signed(i64),
    Text(String),
    Bytes(Vec<u8>),
}

/// A bag of values, at most one under each key. A key stands for the kind of
/// value that a stage keeps under it; the order of insertion plays no part.
#[derive(Debug)]
pub struct ExtensionStore {
    entries: HashMap<u64, ExtensionValue>,
}

/// What a store yields under `key`: the value kept there, or nothing.
pub open spec fn lookup(entries: Map<u64, ExtensionValue>, key: u64) -> Option<ExtensionValue> {
    if entries.contains_key(key) {
        Some(entries[key])
    } else {
        None
    }
}

impl View for ExtensionStore {
    type V = Map<u64, ExtensionValue>;

    closed spec fn view(&self) -> Map<u64, ExtensionValue> {
        self.entries@
    }
}

impl ExtensionStore {
    /// A store that holds nothing.
    pub fn new() -> (store: ExtensionStore)
        ensures
            store@ == Map::<u64, ExtensionValue>::empty(),
    {
        ExtensionStore { entries: HashMap::new() }
    }

    /// Keeps `value` under `key` and hands back what was there before.
    pub fn insert(&mut self, key: u64, value: ExtensionValue) -> (previous: Option<ExtensionValue>)
        ensures
            final(self)@ == old(self)@.insert(key, value),
            previous == lookup(old(self)@, key),
    {
        self.entries.insert(key, value)
    }

    /// The value under `key`, if there is one.
    pub fn get(&self, key: u64) -> (found: Option<&ExtensionValue>)
        ensures
            match found {
                Some(value) => lookup(self@, key) == Some(*value),
                None => lookup(self@, key) is None,
            },
    {
        self.entries.get(&key)
    }

    /// Whether anything is kept under `key`.
    pub fn contains(&self, key: u64) -> (present: bool)
        ensures
            present == self@.contains_key(key),
    {
        self.entries.contains_key(&key)
    }

    /// Takes out what is under `key` and hands it back.
    pub fn remove(&mut self, key: u64) -> (removed: Option<ExtensionValue>)
        ensures
            final(self)@ == old(self)@.remove(key),
            removed == lookup(old(self)@, key),
    {
        self.entries.remove(&key)
    }

    /// The number of values kept.
    pub fn len(&self) -> (n: usize)
        ensures
            n == self@.len(),
            self@.dom().finite(),
    {
        self.entries.len()
    }

    /// Whether the store holds nothing.
    pub fn is_empty(&self) -> (empty: bool)
        ensures
            empty == (self@ == Map::<u64, ExtensionValue>::empty()),
    {
        let empty = self.entries.is_empty();
        proof {
            if self@.is_empty() {
                assert(self@ =~= Map::<u64, ExtensionValue>::empty());
            }
        }
        empty
    }

    /// Takes out every value.
    pub fn clear(&mut self)
        ensures
            final(self)@ == Map::<u64, ExtensionValue>::empty(),
    {
        self.entries.clear()
    }
}

/// A value kept under one key is not seen under another: a lookup under `other`
/// finds what it found before `value` went in under `key`, which is nothing
/// where nothing was kept under `other`.
pub proof fn law_keys_are_isolated(
    entries: Map<u64, ExtensionValue>,
    key: u64,
    other: u64,
    value: ExtensionValue,
)
    requires
        key != other,
    ensures
        lookup(entries.insert(key, value), other) == lookup(entries, other),
        !entries.contains_key(other) ==> lookup(entries.insert(key, value), other) is None,
        lookup(entries.insert(key, value), key) == Some(value),
{
}

/// A second value under the same key takes the place of the first: the store is
/// as if the first had never been kept, and holds one value under the key.
pub proof fn law_insert_overwrites(
    entries: Map<u64, ExtensionValue>,
    key: u64,
    first: ExtensionValue,
    second: ExtensionValue,
)
    requires
        entries.dom().finite(),
    ensures
        entries.insert(key, first).insert(key, second) == entries.insert(key, second),
        lookup(entries.insert(key, first).insert(key, second), key) == Some(second),
        entries.insert(key, first).insert(key, second).len() == entries.insert(key, first).len(),
{
    assert(entries.insert(key, first).insert(key, second) =~= entries.insert(key, second));
    let once = entries.insert(key, first);
    assert(once.dom().insert(key) =~= once.dom());
    assert(once.insert(key, second).dom() =~= once.dom());
}

} // verus!
