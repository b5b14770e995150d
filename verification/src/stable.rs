//! The stable-memory structures the store is built on.
//!
//! Everything in this module is trusted: each handle hides a structure of
//! `ic_stable_structures`, and each function calls one operation of that crate
//! and states what the operation does. Nothing here is proved; the rest of the
//! crate is proved against these statements.
//!
//! The statements about a table or a counter speak of that handle alone. They
//! rely on every handle being opened in a partition of its own. Each handle
//! therefore says in which partition it was opened, and
//! [`crate::store::Store`] proves that no two of its handles share one.

use ic_stable_structures::memory_manager::{MemoryId, MemoryManager, VirtualMemory};
use ic_stable_structures::{Cell, DefaultMemoryImpl, StableBTreeMap};
use vstd::prelude::*;

verus! {

/// The partitioned stable memory of the process: a `MemoryManager` over
/// `DefaultMemoryImpl`. Its type is bounded by the crate's `Memory` trait, so
/// it is held behind an opaque handle.
#[verifier::external_body]
pub struct Partitions {
    manager: MemoryManager<DefaultMemoryImpl>,
}

/// One partition of the stable memory: a `VirtualMemory`.
#[verifier::external_body]
pub struct Partition {
    memory: VirtualMemory<DefaultMemoryImpl>,
}

/// A persistent ordered map from identities to raw records: a
/// `StableBTreeMap<u64, Vec<u8>, _>` in a partition of its own.
#[verifier::external_body]
pub struct StableTable {
    map: StableBTreeMap<u64, Vec<u8>, VirtualMemory<DefaultMemoryImpl>>,
}

/// A persistent `u64`: a `Cell<u64, _>` in a partition of its own.
#[verifier::external_body]
pub struct StableCounter {
    cell: Cell<u64, VirtualMemory<DefaultMemoryImpl>>,
}

/// The entries that a table holds.
pub uninterp spec fn table_contents(table: StableTable) -> Map<u64, Seq<u8>>;

/// The number that a counter holds.
pub uninterp spec fn counter_value(counter: StableCounter) -> u64;

/// The number under which the manager hands out the partition.
pub uninterp spec fn partition_number(partition: Partition) -> u8;

/// The number of the partition that a table was opened in.
pub uninterp spec fn table_partition(table: StableTable) -> u8;

/// The number of the partition that a counter was opened in.
pub uninterp spec fn counter_partition(counter: StableCounter) -> u8;

/// Calls `MemoryManager::init` on `DefaultMemoryImpl::default()`, the stable
/// memory of a canister and a fresh vector elsewhere. What the memory holds is
/// not known here, so nothing is stated of the result. The call panics on a
/// memory that was laid out by a manager of another version.
#[verifier::external_body]
pub(crate) fn partitions_open() -> Partitions {
    Partitions { manager: MemoryManager::init(DefaultMemoryImpl::default()) }
}

/// Calls `MemoryManager::get`, which hands out the partition with the given
/// number. `MemoryId::new` refuses 255, the manager's marker for unused space.
#[verifier::external_body]
pub(crate) fn partition_get(partitions: &Partitions, id: u8) -> (partition: Partition)
    requires
        id != 255,
    ensures
        partition_number(partition) == id,
{
    Partition { memory: partitions.manager.get(MemoryId::new(id)) }
}

/// Calls `StableBTreeMap::new`, which writes a fresh header over whatever the
/// partition held: the table starts empty, and it keeps the partition as its
/// memory.
#[verifier::external_body]
pub(crate) fn table_new(partition: Partition) -> (table: StableTable)
    ensures
        forall|key: u64| !table_contents(table).contains_key(key),
        table_partition(table) == partition_number(partition),
{
    StableTable { map: StableBTreeMap::new(partition.memory) }
}

/// Calls `StableBTreeMap::init`, which loads the map that the partition holds,
/// or starts a new one if it holds none, and keeps the partition as its
/// memory. Nothing is stated of the contents: they are what the memory holds.
/// The call panics on a map of a layout that this version does not know.
#[verifier::external_body]
pub(crate) fn table_init(partition: Partition) -> (table: StableTable)
    ensures
        table_partition(table) == partition_number(partition),
{
    StableTable { map: StableBTreeMap::init(partition.memory) }
}

/// Calls `StableBTreeMap::get`: the value stored under the key, if there is one.
/// A `Vec<u8>` value is stored and read back byte for byte.
#[verifier::external_body]
pub(crate) fn table_get(table: &StableTable, key: u64) -> (found: Option<Vec<u8>>)
    ensures
        found is Some <==> table_contents(*table).contains_key(key),
        found matches Some(bytes) ==> bytes@ == table_contents(*table)[key],
{
    table.map.get(&key)
}

/// Calls `StableBTreeMap::insert`: the value is stored under the key, replacing
/// and returning the one that was there, and no other entry changes.
#[verifier::external_body]
pub(crate) fn table_insert(table: &mut StableTable, key: u64, value: Vec<u8>) -> (previous: Option<
    Vec<u8>,
>)
    ensures
        table_contents(*final(table)) == table_contents(*old(table)).insert(key, value@),
        previous is Some <==> table_contents(*old(table)).contains_key(key),
        previous matches Some(bytes) ==> bytes@ == table_contents(*old(table))[key],
{
    table.map.insert(key, value)
}

/// Calls `StableBTreeMap::iter`, which walks the entries by ascending key, and
/// collects each entry as a pair: every entry of the table occurs, once.
#[verifier::external_body]
pub(crate) fn table_entries(table: &StableTable) -> (entries: Vec<(u64, Vec<u8>)>)
    ensures
        forall|i: int, j: int| 0 <= i < j < entries.len() ==> entries[i].0 < entries[j].0,
        forall|i: int|
            0 <= i < entries.len() ==> table_contents(*table).contains_key(
                (#[trigger] entries[i]).0,
            ) && table_contents(*table)[entries[i].0] == entries[i].1@,
        forall|key: u64| #[trigger]
            table_contents(*table).contains_key(key) ==> exists|i: int|
                0 <= i < entries.len() && (#[trigger] entries[i]).0 == key,
{
    table.map.iter().map(|entry| entry.into_pair()).collect()
}

/// Calls `Cell::new`, which overwrites the partition with the given value and
/// keeps the partition as its memory.
#[verifier::external_body]
pub(crate) fn counter_new(partition: Partition, value: u64) -> (counter: StableCounter)
    ensures
        counter_value(counter) == value,
        counter_partition(counter) == partition_number(partition),
{
    StableCounter { cell: Cell::new(partition.memory, value) }
}

/// Calls `Cell::init`, which loads the value that the partition holds, or
/// writes the default if it holds none, and keeps the partition as its memory.
/// Nothing is stated of the value: it is what the memory holds. The call
/// panics on a cell of a layout that this version does not know.
#[verifier::external_body]
pub(crate) fn counter_init(partition: Partition, default: u64) -> (counter: StableCounter)
    ensures
        counter_partition(counter) == partition_number(partition),
{
    StableCounter { cell: Cell::init(partition.memory, default) }
}

/// Calls `Cell::get`: the value that the cell holds.
#[verifier::external_body]
pub(crate) fn counter_get(counter: &StableCounter) -> (value: u64)
    ensures
        value == counter_value(*counter),
{
    *counter.cell.get()
}

/// Calls `Cell::set`: the cell holds the new value and the old one is returned.
/// The call fails only where the memory cannot grow, and a cell that exists
/// has the page that a `u64` needs.
#[verifier::external_body]
pub(crate) fn counter_set(counter: &mut StableCounter, value: u64) -> (previous: u64)
    ensures
        counter_value(*final(counter)) == value,
        previous == counter_value(*old(counter)),
{
    counter.cell.set(value)
}

} // verus!
