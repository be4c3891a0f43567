//! The stable-memory structures that hold the store's bytes: a map from keys
//! to byte strings for each kind of row, and one cell for the last identifier.
//!
//! Nothing in this file is proved. Each function makes one call into
//! `ic_stable_structures`, and its contract says what that crate's source shows
//! of the call. A call may stop the program where the memory cannot grow, as an
//! allocation may.

use ic_stable_structures::memory_manager::{MemoryId, MemoryManager, VirtualMemory};
use ic_stable_structures::{Cell, DefaultMemoryImpl, StableBTreeMap};
use vstd::prelude::*;

verus! {

/// A `MemoryManager` over the default memory, which cuts that memory into regions.
#[verifier::external_body]
pub struct Regions {
    inner: MemoryManager<DefaultMemoryImpl>,
}

/// One region of the memory. Whatever is built on a region owns it: a region
/// that two structures share is corrupted by both, so each number is asked for
/// once.
#[verifier::external_body]
pub struct Region {
    inner: VirtualMemory<DefaultMemoryImpl>,
}

/// A `StableBTreeMap` from `u64` keys to byte strings, in a region of its own.
#[verifier::external_body]
pub struct Table {
    inner: StableBTreeMap<u64, Vec<u8>, VirtualMemory<DefaultMemoryImpl>>,
}

/// A `Cell` that holds one `u64`, in a region of its own.
#[verifier::external_body]
pub struct Counter {
    inner: Cell<u64, VirtualMemory<DefaultMemoryImpl>>,
}

/// The most bytes that a table keeps under one key: it writes the length of
/// each value in four bytes.
pub const VALUE_LIMIT: usize = 0xffff_ffff;

/// The keys of a table and the bytes kept under each.
pub uninterp spec fn table_rows(t: Table) -> Map<u64, Seq<u8>>;

/// The number that a counter holds.
pub uninterp spec fn counter_value(c: Counter) -> u64;

/// The number that a region was asked for by.
pub uninterp spec fn region_number(r: Region) -> u8;

/// The number of the region that a table was built on. A table keeps its
/// region for as long as it lives.
pub uninterp spec fn table_region(t: Table) -> u8;

/// The number of the region that a counter was built on. A counter keeps its
/// region for as long as it lives.
pub uninterp spec fn counter_region(c: Counter) -> u8;

/// `MemoryManager::init` on `DefaultMemoryImpl::default()`: the manager of the
/// default memory. Nothing is claimed of what that memory holds.
#[verifier::external_body]
pub(crate) fn regions_open() -> (regions: Regions) {
    Regions { inner: MemoryManager::init(DefaultMemoryImpl::default()) }
}

/// `MemoryManager::get`: the region with the given number. `MemoryId::new`
/// refuses 255, so the caller keeps below it.
#[verifier::external_body]
pub(crate) fn region_of(regions: &Regions, number: u8) -> (region: Region)
    requires
        number < 255,
    ensures
        region_number(region) == number,
{
    Region { inner: regions.inner.get(MemoryId::new(number)) }
}

/// `StableBTreeMap::new`: an empty table in `region`, whatever the region held.
#[verifier::external_body]
pub(crate) fn table_new(region: Region) -> (table: Table)
    ensures
        table_rows(table) =~= Map::empty(),
        table_region(table) == region_number(region),
{
    Table { inner: StableBTreeMap::new(region.inner) }
}

/// `StableBTreeMap::init`: the table that `region` holds, or an empty one where
/// it holds none. The rows depend on what the memory held, so nothing is
/// claimed of them: only that the table is built on the region it was given.
#[verifier::external_body]
pub(crate) fn table_open(region: Region) -> (table: Table)
    ensures
        table_region(table) == region_number(region),
{
    Table { inner: StableBTreeMap::init(region.inner) }
}

/// `StableBTreeMap::get`: the bytes under `key`, if the key is there. Their
/// length was read from four bytes.
#[verifier::external_body]
pub(crate) fn table_get(table: &Table, key: u64) -> (found: Option<Vec<u8>>)
    ensures
        match found {
            Some(bytes) => table_rows(*table).contains_key(key) && table_rows(*table)[key]
                == bytes@ && bytes@.len() <= VALUE_LIMIT,
            None => !table_rows(*table).contains_key(key),
        },
{
    table.inner.get(&key)
}

/// `StableBTreeMap::insert`: puts `bytes` under `key` in place of what was
/// there, and returns what was there. Longer values would be cut when their
/// length is written, so the caller keeps to the limit.
#[verifier::external_body]
pub(crate) fn table_insert(table: &mut Table, key: u64, bytes: Vec<u8>) -> (before: Option<
    Vec<u8>,
>)
    requires
        bytes@.len() <= VALUE_LIMIT,
    ensures
        table_rows(*final(table)) == table_rows(*old(table)).insert(key, bytes@),
        match before {
            Some(was) => table_rows(*old(table)).contains_key(key) && table_rows(*old(table))[key]
                == was@,
            None => !table_rows(*old(table)).contains_key(key),
        },
{
    table.inner.insert(key, bytes)
}

/// `StableBTreeMap::remove`: takes `key` out and returns what was under it.
#[verifier::external_body]
pub(crate) fn table_remove(table: &mut Table, key: u64) -> (before: Option<Vec<u8>>)
    ensures
        table_rows(*final(table)) == table_rows(*old(table)).remove(key),
        match before {
            Some(was) => table_rows(*old(table)).contains_key(key) && table_rows(*old(table))[key]
                == was@,
            None => !table_rows(*old(table)).contains_key(key),
        },
{
    table.inner.remove(&key)
}

/// `StableBTreeMap::iter`: every key with its bytes, each key once, the keys
/// ascending.
#[verifier::external_body]
pub(crate) fn table_entries(table: &Table) -> (entries: Vec<(u64, Vec<u8>)>)
    ensures
        forall|i: int, j: int| 0 <= i < j < entries@.len() ==> entries@[i].0 < entries@[j].0,
        forall|i: int|
            0 <= i < entries@.len() ==> table_rows(*table).contains_key(#[trigger] entries@[i].0)
                && table_rows(*table)[entries@[i].0] == entries@[i].1@,
        forall|key: u64| #[trigger]
            table_rows(*table).contains_key(key) ==> exists|i: int|
                0 <= i < entries@.len() && entries@[i].0 == key,
{
    table.inner.iter().map(|entry| entry.into_pair()).collect()
}

/// `Cell::new`: a counter in `region` that holds `start`, whatever the region held.
#[verifier::external_body]
pub(crate) fn counter_new(region: Region, start: u64) -> (counter: Counter)
    ensures
        counter_value(counter) == start,
        counter_region(counter) == region_number(region),
{
    Counter { inner: Cell::new(region.inner, start) }
}

/// `Cell::init`: the counter that `region` holds, or one that holds `start`
/// where it holds none. The number depends on what the memory held, so nothing
/// is claimed of it: only that the counter is built on the region it was given.
#[verifier::external_body]
pub(crate) fn counter_open(region: Region, start: u64) -> (counter: Counter)
    ensures
        counter_region(counter) == region_number(region),
{
    Counter { inner: Cell::init(region.inner, start) }
}

/// `Cell::get`: the number that the counter holds.
#[verifier::external_body]
pub(crate) fn counter_get(counter: &Counter) -> (value: u64)
    ensures
        value == counter_value(*counter),
{
    *counter.inner.get()
}

/// `Cell::set`: writes `value` to the memory and to the counter, and returns
/// the number held before.
#[verifier::external_body]
pub(crate) fn counter_set(counter: &mut Counter, value: u64) -> (before: u64)
    ensures
        counter_value(*final(counter)) == value,
        before == counter_value(*old(counter)),
{
    counter.inner.set(value)
}

} // verus!
