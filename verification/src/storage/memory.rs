//! A storage that keeps its entries in memory.

use super::{Get, GetOutput, Put, PutOutput, StorageCall};
use crate::kv::key::Key;
use serde_json::Value;
use vstd::prelude::*;

verus! {

/// One entry: a key and the document under it.
struct Entry {
    key: Key,
    value: Value,
}

/// The entries as a map from the bytes of a key to the document under it.
spec fn map_of(entries: Seq<Entry>) -> Map<Seq<u8>, Value>
    decreases entries.len(),
{
    if entries.len() == 0 {
        Map::empty()
    } else {
        map_of(entries.drop_last()).insert(entries.last().key@, entries.last().value)
    }
}

/// No two entries have the same key.
spec fn distinct(entries: Seq<Entry>) -> bool {
    forall|i: int, j: int|
        0 <= i < j < entries.len() ==> (#[trigger] entries[i]).key@ != (#[trigger] entries[j]).key@
}

/// The map holds exactly the keys of the entries.
proof fn lemma_map_of_keys(entries: Seq<Entry>, key: Seq<u8>)
    ensures
        map_of(entries).contains_key(key) <==> exists|i: int|
            0 <= i < entries.len() && (#[trigger] entries[i]).key@ == key,
    decreases entries.len(),
{
    if entries.len() > 0 {
        let before = entries.drop_last();
        lemma_map_of_keys(before, key);
        if map_of(entries).contains_key(key) {
            if entries.last().key@ == key {
                assert(entries[entries.len() - 1].key@ == key);
            } else {
                let i = choose|i: int| 0 <= i < before.len() && (#[trigger] before[i]).key@ == key;
                assert(entries[i].key@ == key);
            }
        }
        if exists|i: int| 0 <= i < entries.len() && (#[trigger] entries[i]).key@ == key {
            let i = choose|i: int| 0 <= i < entries.len() && (#[trigger] entries[i]).key@ == key;
            if i < before.len() {
                assert(before[i].key@ == key);
            }
        }
    }
}

/// Under a key that occurs once the map holds the document of its entry.
proof fn lemma_map_of_value(entries: Seq<Entry>, at: int)
    requires
        distinct(entries),
        0 <= at < entries.len(),
    ensures
        map_of(entries).contains_key(entries[at].key@),
        map_of(entries)[entries[at].key@] == entries[at].value,
    decreases entries.len(),
{
    let before = entries.drop_last();
    if at < entries.len() - 1 {
        assert(distinct(before)) by {
            assert forall|i: int, j: int| 0 <= i < j < before.len() implies (
            #[trigger] before[i]).key@ != (#[trigger] before[j]).key@ by {
                assert(entries[i].key@ != entries[j].key@);
            }
        }
        lemma_map_of_value(before, at);
        assert(entries[at].key@ != entries[entries.len() - 1].key@);
    }
}

/// Replacing the document of one entry replaces it in the map.
proof fn lemma_map_of_update(entries: Seq<Entry>, at: int, entry: Entry)
    requires
        0 <= at < entries.len(),
        entry.key@ == entries[at].key@,
        distinct(entries),
    ensures
        distinct(entries.update(at, entry)),
        map_of(entries.update(at, entry)) == map_of(entries).insert(entry.key@, entry.value),
    decreases entries.len(),
{
    let updated = entries.update(at, entry);
    assert(distinct(updated)) by {
        assert forall|i: int, j: int| 0 <= i < j < updated.len() implies (
        #[trigger] updated[i]).key@ != (#[trigger] updated[j]).key@ by {
            assert(entries[i].key@ != entries[j].key@);
        }
    }
    let before = entries.drop_last();
    if at == entries.len() - 1 {
        assert(updated.drop_last() =~= before);
        assert(map_of(updated) =~= map_of(entries).insert(entry.key@, entry.value));
    } else {
        assert(distinct(before)) by {
            assert forall|i: int, j: int| 0 <= i < j < before.len() implies (
            #[trigger] before[i]).key@ != (#[trigger] before[j]).key@ by {
                assert(entries[i].key@ != entries[j].key@);
            }
        }
        lemma_map_of_update(before, at, entry);
        assert(updated.drop_last() =~= before.update(at, entry));
        assert(entries[at].key@ != entries[entries.len() - 1].key@);
        assert(map_of(updated) =~= map_of(entries).insert(entry.key@, entry.value));
    }
}

/// What a read of `key` gives on a storage that holds `store`.
pub open spec fn read(store: Map<Seq<u8>, Value>, key: Seq<u8>) -> GetOutput {
    if store.contains_key(key) {
        Some(store[key])
    } else {
        None
    }
}

/// Whether `key` is new to a storage that holds `store`.
pub open spec fn is_new(store: Map<Seq<u8>, Value>, key: Seq<u8>) -> bool {
    !store.contains_key(key)
}

/// What a storage that held `store` holds after `value` was written under
/// `key`.
pub open spec fn written(store: Map<Seq<u8>, Value>, key: Seq<u8>, value: Value) -> Map<
    Seq<u8>,
    Value,
> {
    store.insert(key, value)
}

/// A storage in memory: a map from keys to documents.
pub struct MemoryStorage {
    entries: Vec<Entry>,
}

impl View for MemoryStorage {
    type V = Map<Seq<u8>, Value>;

    closed spec fn view(&self) -> Map<Seq<u8>, Value> {
        map_of(self.entries@)
    }
}

impl MemoryStorage {
    /// No key is held twice.
    pub closed spec fn wf(&self) -> bool {
        distinct(self.entries@)
    }

    /// An empty storage.
    pub fn open() -> (storage: MemoryStorage)
        ensures
            storage.wf(),
            storage@ == Map::<Seq<u8>, Value>::empty(),
    {
        MemoryStorage { entries: Vec::new() }
    }

    /// The place of the entry of `key`, if there is one.
    fn find(&self, key: &Key) -> (at: Option<usize>)
        requires
            self.wf(),
        ensures
            match at {
                Some(i) => i < self.entries@.len() && self.entries@[i as int].key@ == key@,
                None => forall|k: int|
                    0 <= k < self.entries@.len() ==> (#[trigger] self.entries@[k]).key@ != key@,
            },
    {
        let mut i: usize = 0;
        while i < self.entries.len()
            invariant
                i <= self.entries@.len(),
                forall|k: int| 0 <= k < i ==> (#[trigger] self.entries@[k]).key@ != key@,
            decreases self.entries@.len() - i,
        {
            if self.entries[i].key == *key {
                return Some(i);
            }
            i += 1;
        }
        None
    }

    /// Handles one call of the inbox: reads or writes as the call says,
    /// and replies with what that gave.
    pub fn on_call(&mut self, call: StorageCall)
        requires
            old(self).wf(),
        ensures
            final(self).wf(),
            final(self)@ == match call {
                StorageCall::Get(_) => old(self)@,
                StorageCall::Put(call) => written(old(self)@, call.input.key@, call.input.value),
            },
            match call {
                StorageCall::Get(call) => call.back.answered(
                    Ok(read(old(self)@, call.input.key@)),
                ),
                StorageCall::Put(call) => call.back.answered(
                    Ok(is_new(old(self)@, call.input.key@)),
                ),
            },
    {
        match call {
            StorageCall::Get(call) => {
                let ghost back = call.back;
                let output = self.get(&call.input);
                let delivered = call.back.reply_ok(output);
                assert(back.replies(Ok(output), delivered));
            },
            StorageCall::Put(call) => {
                let ghost back = call.back;
                let new = self.put(call.input);
                let delivered = call.back.reply_ok(new);
                assert(back.replies(Ok(new), delivered));
            },
        }
    }

    /// Reads the document under the key of `request`.
    pub fn get(&self, request: &Get) -> (output: GetOutput)
        requires
            self.wf(),
        ensures
            output == read(self@, request.key@),
    {
        proof {
            lemma_map_of_keys(self.entries@, request.key@);
        }
        match self.find(&request.key) {
            Some(i) => {
                proof {
                    lemma_map_of_value(self.entries@, i as int);
                }
                Some(self.entries[i].value.clone())
            },
            None => None,
        }
    }

    /// Writes the document of `request` under its key, over what was
    /// there, and says whether the key was new.
    pub fn put(&mut self, request: Put) -> (new: PutOutput)
        requires
            old(self).wf(),
        ensures
            final(self).wf(),
            new == is_new(old(self)@, request.key@),
            final(self)@ == written(old(self)@, request.key@, request.value),
    {
        proof {
            lemma_map_of_keys(self.entries@, request.key@);
        }
        match self.find(&request.key) {
            Some(i) => {
                let entry = Entry { key: request.key, value: request.value };
                proof {
                    lemma_map_of_update(self.entries@, i as int, entry);
                }
                self.entries.set(i, entry);
                false
            },
            None => {
                let entry = Entry { key: request.key, value: request.value };
                let ghost before = self.entries@;
                self.entries.push(entry);
                proof {
                    assert(self.entries@.drop_last() =~= before);
                }
                true
            },
        }
    }
}

/// A write followed by a read of the same key gives the document
/// written.
pub proof fn lemma_get_after_put(store: Map<Seq<u8>, Value>, key: Seq<u8>, value: Value)
    ensures
        read(written(store, key, value), key) == Some(value),
{
}

/// A write changes what no other key reads.
pub proof fn lemma_put_keeps_others(
    store: Map<Seq<u8>, Value>,
    key: Seq<u8>,
    value: Value,
    other: Seq<u8>,
)
    requires
        other != key,
    ensures
        read(written(store, key, value), other) == read(store, other),
        is_new(written(store, key, value), other) == is_new(store, other),
{
}

/// Of two writes of the same key in a row, the first of them on a storage
/// without the key, the first finds the key new and the second does not,
/// and the second document is the one read after.
pub proof fn lemma_put_twice(store: Map<Seq<u8>, Value>, key: Seq<u8>, first: Value, second: Value)
    requires
        !store.contains_key(key),
    ensures
        is_new(store, key),
        !is_new(written(store, key, first), key),
        read(written(written(store, key, first), key, second), key) == Some(second),
{
}

/// Writing the same document again changes nothing: the storage holds
/// what it held after the first write, and the document is read back.
pub proof fn lemma_put_idempotent(store: Map<Seq<u8>, Value>, key: Seq<u8>, value: Value)
    ensures
        written(written(store, key, value), key, value) == written(store, key, value),
        read(written(written(store, key, value), key, value), key) == Some(value),
{
    assert(store.insert(key, value).insert(key, value) =~= store.insert(key, value));
}

} // verus!
