//! Rows in the order of their keys, and pages of them.

use vstd::prelude::*;

verus! {

/// One more than the greatest key.
pub open spec fn key_limit() -> nat {
    0x1_0000_0000_0000_0000
}

/// The rows whose keys are below `n`, by ascending key.
pub open spec fn below<V>(m: Map<u64, V>, n: nat) -> Seq<V>
    decreases n,
{
    if n == 0 {
        Seq::empty()
    } else {
        let key = (n - 1) as u64;
        if n <= key_limit() && m.contains_key(key) {
            below(m, (n - 1) as nat).push(m[key])
        } else {
            below(m, (n - 1) as nat)
        }
    }
}

/// All rows of a collection, by ascending key.
pub open spec fn ordered<V>(m: Map<u64, V>) -> Seq<V> {
    below(m, key_limit())
}

/// Where no key lies from `lo` up to `hi`, the rows below `hi` are those below `lo`.
pub proof fn lemma_below_gap<V>(m: Map<u64, V>, lo: nat, hi: nat)
    requires
        lo <= hi,
        forall|key: u64| lo <= key < hi ==> !m.contains_key(key),
    ensures
        below(m, hi) == below(m, lo),
    decreases hi - lo,
{
    if lo < hi {
        lemma_below_gap(m, lo, (hi - 1) as nat);
    }
}

/// Every row below `n` is kept under a key below `n`, and the keys ascend
/// along the sequence.
pub proof fn lemma_below_keys<V>(m: Map<u64, V>, n: nat) -> (keys: Seq<u64>)
    ensures
        keys.len() == below(m, n).len(),
        forall|i: int|
            0 <= i < keys.len() ==> keys[i] < n && m.contains_key(#[trigger] keys[i]) && below(
                m,
                n,
            )[i] == m[keys[i]],
        forall|i: int, j: int| 0 <= i < j < keys.len() ==> keys[i] < keys[j],
        forall|key: u64|
            key < n && m.contains_key(key) ==> exists|i: int|
                0 <= i < keys.len() && #[trigger] keys[i] == key,
    decreases n,
{
    if n == 0 {
        Seq::empty()
    } else {
        let before = lemma_below_keys(m, (n - 1) as nat);
        let key = (n - 1) as u64;
        if n <= key_limit() && m.contains_key(key) {
            let keys = before.push(key);
            assert forall|k: u64| k < n && m.contains_key(k) implies exists|i: int|
                0 <= i < keys.len() && #[trigger] keys[i] == k by {
                if k == key {
                    assert(keys[keys.len() - 1] == k);
                } else {
                    let i = choose|i: int| 0 <= i < before.len() && #[trigger] before[i] == k;
                    assert(keys[i] == k);
                }
            }
            keys
        } else {
            assert forall|k: u64| k < n && m.contains_key(k) implies exists|i: int|
                0 <= i < before.len() && #[trigger] before[i] == k by {
                assert(k < n - 1);
            }
            before
        }
    }
}

/// What one more item adds to the kept items of a beginning of `s`.
pub proof fn lemma_filter_next<T>(s: Seq<T>, i: int, keep: spec_fn(T) -> bool)
    requires
        0 <= i < s.len(),
    ensures
        s.take(i + 1).filter(keep) == if keep(s[i]) {
            s.take(i).filter(keep).push(s[i])
        } else {
            s.take(i).filter(keep)
        },
{
    reveal(Seq::filter);
    let longer = s.take(i + 1);
    assert(longer.drop_last() =~= s.take(i));
    assert(longer.last() == s[i]);
}

/// The first place of a page: pages count from 1, and page 0 is read as page 1.
pub open spec fn page_start(page: usize, per_page: usize) -> int {
    (if page == 0 {
        0
    } else {
        page - 1
    }) * per_page
}

/// The items of a page: up to `per_page` of them from `page_start` on, and none
/// where the page begins behind the last item.
pub open spec fn page_of<T>(items: Seq<T>, page: usize, per_page: usize) -> Seq<T> {
    let start = page_start(page, per_page);
    if start >= items.len() {
        Seq::empty()
    } else if start + per_page >= items.len() {
        items.subrange(start, items.len() as int)
    } else {
        items.subrange(start, start + per_page)
    }
}

/// Cuts one page out of `items`.
pub fn paginate<T>(items: Vec<T>, page: usize, per_page: usize) -> (out: Vec<T>)
    ensures
        out@ == page_of(items@, page, per_page),
{
    let mut items = items;
    let ghost all = items@;
    let len: usize = items.len();
    let start: usize = match page.saturating_sub(1).checked_mul(per_page) {
        Some(start) => start,
        None => {
            return Vec::new();
        },
    };
    if start >= len {
        return Vec::new();
    }
    if per_page < len - start {
        items.truncate(start + per_page);
    }
    let out = items.split_off(start);
    assert(out@ =~= page_of(all, page, per_page));
    out
}

} // verus!
