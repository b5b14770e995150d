//! The bounded record store: a persistent map from identities to encoded
//! records of one kind, none longer than [`MAX_RECORD_SIZE`].

use crate::error::Error;
use crate::record::{decode, decoding, encode, encoding, fits, lemma_decode_encode, Record};
use crate::stable::{
    partition_number, table_contents, table_entries, table_get, table_init, table_insert,
    table_new, table_partition, Partition, StableTable,
};
use std::marker::PhantomData;
use vstd::prelude::*;

verus! {

/// A table of records of kind `T`.
pub struct Table<T: Record> {
    rows: StableTable,
    kind: PhantomData<T>,
}

/// The bytes under `id` spell out a record that carries that identity.
pub open spec fn holds<T: Record>(bytes: Map<u64, Seq<u8>>, id: u64) -> bool {
    bytes.contains_key(id) && decoding::<T>(bytes[id]) is Some && T::identity_of(
        decoding::<T>(bytes[id])->0,
    ) == id
}

/// The records that stored bytes spell out. Bytes that spell out no record, or
/// one that carries another identity, count as no record.
pub open spec fn typed<T: Record>(bytes: Map<u64, Seq<u8>>) -> Map<u64, T::V> {
    Map::new(|id: u64| holds::<T>(bytes, id), |id: u64| decoding::<T>(bytes[id])->0)
}

/// Storing the encoding of a record under its identity puts the record there
/// and leaves every other record as it was.
pub proof fn lemma_typed_insert<T: Record>(bytes: Map<u64, Seq<u8>>, v: T::V)
    requires
        fits::<T>(v),
    ensures
        typed::<T>(bytes.insert(T::identity_of(v), encoding::<T>(v))) == typed::<T>(bytes).insert(
            T::identity_of(v),
            v,
        ),
{
    lemma_decode_encode::<T>(v);
    let id = T::identity_of(v);
    let after = bytes.insert(id, encoding::<T>(v));
    assert forall|k: u64| holds::<T>(after, k) <==> (k == id || holds::<T>(bytes, k)) by {
        if k != id {
            assert(after[k] == bytes[k]);
        }
    }
    assert(typed::<T>(after) =~= typed::<T>(bytes).insert(id, v));
}

impl<T: Record> View for Table<T> {
    type V = Map<u64, T::V>;

    open spec fn view(&self) -> Map<u64, T::V> {
        typed::<T>(self.bytes())
    }
}

impl<T: Record> Table<T> {
    /// The stored bytes, by identity.
    pub closed spec fn bytes(&self) -> Map<u64, Seq<u8>> {
        table_contents(self.rows)
    }

    /// The number of the partition that the table was opened in.
    pub closed spec fn partition(&self) -> u8 {
        table_partition(self.rows)
    }

    /// Starts an empty table in the partition, over whatever it held.
    pub(crate) fn new(partition: Partition) -> (table: Self)
        ensures
            forall|id: u64| !table.bytes().contains_key(id),
            forall|id: u64| !table@.contains_key(id),
            table.partition() == partition_number(partition),
    {
        Table { rows: table_new(partition), kind: PhantomData }
    }

    /// Opens a table in the partition: the one that the partition holds, or an
    /// empty one if it holds none. Which records it holds is for the memory to
    /// say.
    pub(crate) fn init(partition: Partition) -> (table: Self)
        ensures
            table.partition() == partition_number(partition),
    {
        Table { rows: table_init(partition), kind: PhantomData }
    }

    /// The record stored under `id`, if there is one.
    pub fn get(&self, id: u64) -> (record: Option<T>)
        ensures
            match record {
                Some(r) => self@.contains_key(id) && self@[id] == r@ && T::identity_of(r@) == id,
                None => !self@.contains_key(id),
            },
    {
        match table_get(&self.rows, id) {
            Some(bytes) => match decode::<T>(bytes.as_slice()) {
                Some(record) => if record.identity() == id {
                    Some(record)
                } else {
                    None
                },
                None => None,
            },
            None => None,
        }
    }

    /// Stores the record under its identity, unless its encoding is too long.
    /// Says whether bytes stood under that identity before.
    pub fn put(&mut self, record: &T) -> (replaced: Result<bool, Error>)
        ensures
            match replaced {
                Ok(existed) => {
                    &&& fits::<T>(record@)
                    &&& final(self).bytes() == old(self).bytes().insert(
                        T::identity_of(record@),
                        encoding::<T>(record@),
                    )
                    &&& final(self)@ == old(self)@.insert(T::identity_of(record@), record@)
                    &&& existed == old(self).bytes().contains_key(T::identity_of(record@))
                },
                Err(e) => {
                    &&& !fits::<T>(record@)
                    &&& e == Error::EncodingOverflow
                    &&& *final(self) == *old(self)
                },
            },
    {
        match encode(record) {
            Ok(bytes) => Ok(self.put_encoded(record.identity(), bytes, Ghost(record@))),
            Err(e) => Err(e),
        }
    }

    /// Stores an encoding that [`encode`] has accepted.
    pub(crate) fn put_encoded(&mut self, id: u64, bytes: Vec<u8>, Ghost(v): Ghost<T::V>) -> (existed:
        bool)
        requires
            fits::<T>(v),
            bytes@ == encoding::<T>(v),
            id == T::identity_of(v),
        ensures
            final(self).bytes() == old(self).bytes().insert(id, bytes@),
            final(self)@ == old(self)@.insert(id, v),
            existed == old(self).bytes().contains_key(id),
    {
        proof {
            lemma_typed_insert::<T>(self.bytes(), v);
        }
        let previous = table_insert(&mut self.rows, id, bytes);
        previous.is_some()
    }

    /// The records of the table, by ascending identity.
    pub fn iterate(&self) -> (records: Vec<(u64, T)>)
        ensures
            forall|i: int, j: int| 0 <= i < j < records.len() ==> records[i].0 < records[j].0,
            forall|i: int|
                0 <= i < records.len() ==> self@.contains_key((#[trigger] records[i]).0)
                    && self@[records[i].0] == records[i].1@,
            forall|id: u64| #[trigger]
                self@.contains_key(id) ==> exists|i: int|
                    0 <= i < records.len() && (#[trigger] records[i]).0 == id,
    {
        let entries = table_entries(&self.rows);
        let mut records: Vec<(u64, T)> = Vec::new();
        let mut at: usize = 0;
        // For each record, the entry it was read from; for each entry, the
        // record it was read into, or -1.
        let ghost mut origin: Seq<int> = Seq::empty();
        let ghost mut slot: Seq<int> = Seq::empty();
        while at < entries.len()
            invariant
                at <= entries.len(),
                forall|i: int, j: int| 0 <= i < j < entries.len() ==> entries[i].0 < entries[j].0,
                forall|i: int|
                    0 <= i < entries.len() ==> self.bytes().contains_key((#[trigger] entries[i]).0)
                        && self.bytes()[entries[i].0] == entries[i].1@,
                origin.len() == records.len(),
                slot.len() == at,
                forall|i: int|
                    0 <= i < records.len() ==> 0 <= #[trigger] origin[i] < at && records[i].0
                        == entries[origin[i]].0,
                forall|i: int, j: int|
                    0 <= i < j < records.len() ==> #[trigger] origin[i] < #[trigger] origin[j],
                forall|i: int|
                    0 <= i < records.len() ==> self@.contains_key((#[trigger] records[i]).0)
                        && self@[records[i].0] == records[i].1@,
                forall|e: int|
                    0 <= e < at && self@.contains_key(entries[e].0) ==> 0 <= #[trigger] slot[e]
                        < records.len() && records[slot[e]].0 == entries[e].0,
            decreases entries.len() - at,
        {
            let id = entries[at].0;
            let ghost before = records@;
            let ghost mut read_into: int = -1;
            match decode::<T>(entries[at].1.as_slice()) {
                Some(record) => {
                    if record.identity() == id {
                        records.push((id, record));
                        proof {
                            read_into = before.len() as int;
                            origin = origin.push(at as int);
                        }
                        assert(forall|i: int|
                            0 <= i < before.len() ==> records[i] == before[i]);
                    }
                },
                None => {},
            }
            proof {
                slot = slot.push(read_into);
            }
            at = at + 1;
        }
        assert forall|i: int, j: int| 0 <= i < j < records.len() implies records[i].0
            < records[j].0 by {
            assert(origin[i] < origin[j]);
        }
        assert forall|id: u64| #[trigger] self@.contains_key(id) implies exists|i: int|
            0 <= i < records.len() && (#[trigger] records[i]).0 == id by {
            let e = choose|e: int| 0 <= e < entries.len() && (#[trigger] entries[e]).0 == id;
            assert(self@.contains_key(entries[e].0));
            assert(records[slot[e]].0 == id);
        }
        records
    }
}

} // verus!
