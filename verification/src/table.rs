//! A table of bytes read as a collection of rows of one kind.
//!
//! Bytes under a key that are no row of the kind, or that are a row which names
//! another key as its own, count as no row: the collection holds what can be
//! read back.

use crate::listing::{below, key_limit, lemma_below_gap, ordered};
use crate::record::Record;
use crate::stable::{
    table_entries, table_get, table_insert, table_remove, table_rows, Table, VALUE_LIMIT,
};
use vstd::prelude::*;

verus! {

/// A row that may be kept under `key`: it names that key, or none.
pub open spec fn belongs<R: Record>(key: u64, row: R::V) -> bool {
    R::own_key(row) is None || R::own_key(row) == Some(key)
}

/// The row that `bytes` under `key` stand for, where they stand for one.
pub open spec fn row_at<R: Record>(key: u64, bytes: Seq<u8>) -> Option<R::V> {
    match R::parse(bytes) {
        Some(row) => if belongs::<R>(key, row) {
            Some(row)
        } else {
            None
        },
        None => None,
    }
}

/// The rows that a table of bytes holds.
pub open spec fn rows_of<R: Record>(raw: Map<u64, Seq<u8>>) -> Map<u64, R::V> {
    Map::new(
        |key: u64| raw.contains_key(key) && row_at::<R>(key, raw[key]) is Some,
        |key: u64| row_at::<R>(key, raw[key]).unwrap(),
    )
}

/// The views of a sequence of rows.
pub open spec fn views<R: View>(rows: Seq<R>) -> Seq<R::V> {
    Seq::new(rows.len(), |i: int| rows[i]@)
}

/// Every row of the collection names the key it is kept under, where it names one.
pub proof fn lemma_rows_belong<R: Record>(raw: Map<u64, Seq<u8>>, key: u64)
    requires
        rows_of::<R>(raw).contains_key(key),
    ensures
        belongs::<R>(key, rows_of::<R>(raw)[key]),
{
}

/// Bytes that were written from a row stand for it under the key it belongs to.
pub proof fn lemma_rows_insert<R: Record>(raw: Map<u64, Seq<u8>>, key: u64, row: R::V)
    requires
        R::fits(row),
        belongs::<R>(key, row),
    ensures
        rows_of::<R>(raw.insert(key, R::layout(row))) == rows_of::<R>(raw).insert(key, row),
{
    R::lemma_parse_layout(row);
    assert(rows_of::<R>(raw.insert(key, R::layout(row))) =~= rows_of::<R>(raw).insert(key, row));
}

/// Taking a key out of the bytes takes it out of the rows.
pub proof fn lemma_rows_remove<R: Record>(raw: Map<u64, Seq<u8>>, key: u64)
    ensures
        rows_of::<R>(raw.remove(key)) == rows_of::<R>(raw).remove(key),
{
    assert(rows_of::<R>(raw.remove(key)) =~= rows_of::<R>(raw).remove(key));
}

/// Reads bytes as a row under `key`.
fn read_row<R: Record>(key: u64, bytes: &[u8]) -> (r: Option<R>)
    ensures
        match r {
            Some(row) => row_at::<R>(key, bytes@) == Some(row@),
            None => row_at::<R>(key, bytes@) is None,
        },
{
    match R::decode(bytes) {
        Some(row) => {
            let fitting = match row.key() {
                Some(own) => own == key,
                None => true,
            };
            if fitting {
                Some(row)
            } else {
                None
            }
        },
        None => None,
    }
}

/// The row under `key`. A row that was kept can be kept again: written, it
/// is what the table held, and so within the table's limit.
pub fn fetch<R: Record>(table: &Table, key: u64) -> (r: Option<R>)
    ensures
        match r {
            Some(row) => rows_of::<R>(table_rows(*table)).contains_key(key) && rows_of::<R>(
                table_rows(*table),
            )[key] == row@ && R::layout(row@).len() <= VALUE_LIMIT,
            None => !rows_of::<R>(table_rows(*table)).contains_key(key),
        },
{
    match table_get(table, key) {
        Some(bytes) => {
            proof {
                if R::parse(bytes@) is Some {
                    R::lemma_layout_parse(bytes@);
                }
            }
            read_row::<R>(key, bytes.as_slice())
        },
        None => None,
    }
}

/// Whether there is a row under `key`.
pub fn exists_in<R: Record>(table: &Table, key: u64) -> (found: bool)
    ensures
        found == rows_of::<R>(table_rows(*table)).contains_key(key),
{
    fetch::<R>(table, key).is_some()
}

/// Puts `row` under `key`, in place of what was there.
pub fn keep<R: Record>(table: &mut Table, key: u64, row: &R)
    requires
        belongs::<R>(key, row@),
        R::layout(row@).len() <= VALUE_LIMIT,
    ensures
        rows_of::<R>(table_rows(*final(table))) == rows_of::<R>(table_rows(*old(table))).insert(
            key,
            row@,
        ),
{
    let bytes = row.encode();
    proof {
        lemma_rows_insert::<R>(table_rows(*table), key, row@);
    }
    table_insert(table, key, bytes);
}

/// Takes the row under `key` out, and says whether there was one.
pub fn discard<R: Record>(table: &mut Table, key: u64) -> (was: bool)
    ensures
        was == rows_of::<R>(table_rows(*old(table))).contains_key(key),
        rows_of::<R>(table_rows(*final(table))) == rows_of::<R>(table_rows(*old(table))).remove(
            key,
        ),
{
    proof {
        lemma_rows_remove::<R>(table_rows(*table), key);
    }
    match table_remove(table, key) {
        Some(bytes) => read_row::<R>(key, bytes.as_slice()).is_some(),
        None => false,
    }
}

/// Whether no row of the table has a key above `limit`.
pub fn keys_within<R: Record>(table: &Table, limit: u64) -> (within: bool)
    ensures
        within <==> (forall|key: u64|
            rows_of::<R>(table_rows(*table)).contains_key(key) ==> key <= limit),
{
    let entries = table_entries(table);
    let ghost rows = rows_of::<R>(table_rows(*table));
    let mut i: usize = 0;
    while i < entries.len()
        invariant
            i <= entries@.len(),
            rows == rows_of::<R>(table_rows(*table)),
            forall|j: int|
                0 <= j < i ==> rows.contains_key(#[trigger] entries@[j].0) ==> entries@[j].0
                    <= limit,
            forall|j: int|
                0 <= j < entries@.len() ==> table_rows(*table).contains_key(
                    #[trigger] entries@[j].0,
                ) && table_rows(*table)[entries@[j].0] == entries@[j].1@,
            forall|key: u64| #[trigger]
                table_rows(*table).contains_key(key) ==> exists|j: int|
                    0 <= j < entries@.len() && entries@[j].0 == key,
        decreases entries@.len() - i,
    {
        let key: u64 = entries[i].0;
        if key > limit && read_row::<R>(key, entries[i].1.as_slice()).is_some() {
            assert(rows.contains_key(entries@[i as int].0));
            return false;
        }
        i += 1;
    }
    proof {
        assert forall|key: u64| rows.contains_key(key) implies key <= limit by {
            let j = choose|j: int| 0 <= j < entries@.len() && entries@[j].0 == key;
            assert(rows.contains_key(entries@[j].0));
        }
    }
    true
}

/// All rows of the table, by ascending key.
pub fn listing<R: Record>(table: &Table) -> (out: Vec<R>)
    ensures
        views(out@) == ordered(rows_of::<R>(table_rows(*table))),
{
    let entries = table_entries(table);
    let ghost rows = rows_of::<R>(table_rows(*table));
    let mut out: Vec<R> = Vec::new();
    let mut i: usize = 0;
    let ghost mut lo: nat = 0;
    assert(views(out@) =~= below(rows, 0));
    while i < entries.len()
        invariant
            i <= entries@.len(),
            rows == rows_of::<R>(table_rows(*table)),
            lo <= key_limit(),
            views(out@) == below(rows, lo),
            forall|j: int| 0 <= j < i ==> entries@[j].0 < lo,
            forall|j: int| i <= j < entries@.len() ==> entries@[j].0 >= lo,
            forall|a: int, b: int| 0 <= a < b < entries@.len() ==> entries@[a].0 < entries@[b].0,
            forall|j: int|
                0 <= j < entries@.len() ==> table_rows(*table).contains_key(
                    #[trigger] entries@[j].0,
                ) && table_rows(*table)[entries@[j].0] == entries@[j].1@,
            forall|key: u64| #[trigger]
                table_rows(*table).contains_key(key) ==> exists|j: int|
                    0 <= j < entries@.len() && entries@[j].0 == key,
        decreases entries@.len() - i,
    {
        let key: u64 = entries[i].0;
        let ghost before = views(out@);
        proof {
            assert forall|k: u64| lo <= k < key implies !rows.contains_key(k) by {
                if table_rows(*table).contains_key(k) {
                    let j = choose|j: int| 0 <= j < entries@.len() && entries@[j].0 == k;
                    assert(j < i || j >= i);
                }
            }
            lemma_below_gap(rows, lo, key as nat);
        }
        match read_row::<R>(key, entries[i].1.as_slice()) {
            Some(row) => {
                out.push(row);
                assert(views(out@) =~= before.push(row@));
            },
            None => {},
        }
        proof {
            lo = (key + 1) as nat;
            assert(entries@[i as int].0 == key);
        }
        i += 1;
    }
    proof {
        assert forall|k: u64| lo <= k < key_limit() implies !rows.contains_key(k) by {
            if table_rows(*table).contains_key(k) {
                let j = choose|j: int| 0 <= j < entries@.len() && entries@[j].0 == k;
            }
        }
        lemma_below_gap(rows, lo, key_limit());
    }
    out
}

} // verus!
