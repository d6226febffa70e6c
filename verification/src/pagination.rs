//! Cursor pagination over ascending key listings.  A caller supplies an
//! exclusive `start_after` key and a bounded page size; a page is the next
//! run of keys in ascending order, together with the last key seen, so that
//! repeated calls walk the whole listing without gaps or repeats.

use vstd::prelude::*;

verus! {

/// Page size used when the caller does not give one.
pub const DEFAULT_LIMIT: u32 = 10;

/// Hard cap on a requested page size.
pub const MAX_LIMIT: u32 = 30;

/// Bounds a requested page size: the default when absent, capped at the
/// maximum.
pub fn calc_limit(request: Option<u32>) -> (limit: usize)
    ensures
        limit == spec_limit(request),
{
    (match request {
        Some(r) => if r < MAX_LIMIT { r } else { MAX_LIMIT },
        None => DEFAULT_LIMIT,
    }) as usize
}

/// The effective page size for a request.
pub open spec fn spec_limit(request: Option<u32>) -> int {
    match request {
        Some(r) => if r < MAX_LIMIT { r as int } else { MAX_LIMIT as int },
        None => DEFAULT_LIMIT as int,
    }
}

/// Keys stand in strictly increasing order.
pub open spec fn sorted(s: Seq<u64>) -> bool {
    forall|i: int, j: int| 0 <= i < j < s.len() ==> s[i] < s[j]
}

/// The keys that lie after an exclusive cursor; no cursor means the whole
/// listing.
pub open spec fn after(s: Seq<u64>, start_after: Option<u64>) -> Seq<u64> {
    match start_after {
        None => s,
        Some(a) => s.filter(|k: u64| k > a),
    }
}

/// At most the first `limit` elements.
pub open spec fn take_at_most<A>(s: Seq<A>, limit: int) -> Seq<A> {
    if limit <= s.len() {
        s.take(limit)
    } else {
        s
    }
}

/// One page: the keys after the cursor, cut to the page size.
pub open spec fn page(s: Seq<u64>, start_after: Option<u64>, limit: int) -> Seq<u64> {
    take_at_most(after(s, start_after), limit)
}

/// Filtering a sequence one element longer keeps the shorter prefix's
/// result and at most appends the new element.
pub proof fn lemma_filter_take_step<A>(s: Seq<A>, pred: spec_fn(A) -> bool, i: int)
    requires
        0 <= i < s.len(),
    ensures
        s.take(i + 1).filter(pred) == if pred(s[i]) {
            s.take(i).filter(pred).push(s[i])
        } else {
            s.take(i).filter(pred)
        },
{
    reveal(Seq::filter);
    assert(s.take(i + 1).drop_last() =~= s.take(i));
    assert(s.take(i + 1).last() == s[i]);
}

/// Taking a sequence's full length is the sequence itself.
pub proof fn lemma_take_full<A>(s: Seq<A>)
    ensures
        s.take(s.len() as int) == s,
{
    assert(s.take(s.len() as int) =~= s);
}

/// In a strictly sorted listing the keys above a cursor form a contiguous
/// tail: returns the index where that tail starts.
proof fn lemma_cut(s: Seq<u64>, a: u64) -> (c: int)
    requires
        sorted(s),
    ensures
        0 <= c <= s.len(),
        forall|j: int| 0 <= j < c ==> s[j] <= a,
        forall|j: int| c <= j < s.len() ==> s[j] > a,
        s.filter(|k: u64| k > a) == s.skip(c),
    decreases s.len(),
{
    reveal(Seq::filter);
    if s.len() == 0 {
        assert(s.filter(|k: u64| k > a) =~= s.skip(0));
        0
    } else {
        let t = s.drop_last();
        assert(sorted(t));
        let ct = lemma_cut(t, a);
        if s.last() > a {
            assert(s.filter(|k: u64| k > a) == t.filter(|k: u64| k > a).push(s.last()));
            assert(t.skip(ct).push(s.last()) =~= s.skip(ct));
            assert forall|j: int| 0 <= j < ct implies s[j] <= a by {
                assert(t[j] <= a);
            }
            assert forall|j: int| ct <= j < s.len() implies s[j] > a by {
                if j < s.len() - 1 {
                    assert(t[j] > a);
                }
            }
            ct
        } else {
            assert forall|j: int| 0 <= j < t.len() implies t[j] <= a by {
                assert(s[j] < s[s.len() - 1]);
            }
            assert(ct == t.len()) by {
                if ct < t.len() {
                    assert(t[ct] > a);
                }
            }
            assert(t.filter(|k: u64| k > a) == t.skip(ct));
            assert(t.skip(ct) =~= Seq::<u64>::empty());
            assert(s.filter(|k: u64| k > a) =~= s.skip(s.len() as int));
            s.len() as int
        }
    }
}

/// In a listing with strictly increasing keys, filtering by value first
/// and by cursor second is the same as cutting the value-filtered listing
/// at the cursor: the id page of a filtered listing is a page of its
/// unbounded listing.
pub proof fn lemma_filter_cursor_commutes<V>(
    s: Seq<(u64, V)>,
    val_pred: spec_fn((u64, V)) -> bool,
    cursor_pred: spec_fn((u64, V)) -> bool,
    a: u64,
)
    requires
        forall|e: (u64, V)| #[trigger] cursor_pred(e) == (val_pred(e) && e.0 > a),
    ensures
        s.filter(cursor_pred).map_values(|e: (u64, V)| e.0) == s.filter(val_pred).map_values(
            |e: (u64, V)| e.0,
        ).filter(|k: u64| k > a),
    decreases s.len(),
{
    reveal(Seq::filter);
    if s.len() == 0 {
        assert(s.filter(cursor_pred).map_values(|e: (u64, V)| e.0) =~= s.filter(
            val_pred,
        ).map_values(|e: (u64, V)| e.0).filter(|k: u64| k > a));
    } else {
        let t = s.drop_last();
        lemma_filter_cursor_commutes(t, val_pred, cursor_pred, a);
        let x = s.last();
        assert(cursor_pred(x) == (val_pred(x) && x.0 > a));
        if val_pred(x) {
            assert(s.filter(val_pred) == t.filter(val_pred).push(x));
            assert(s.filter(val_pred).map_values(|e: (u64, V)| e.0) =~= t.filter(
                val_pred,
            ).map_values(|e: (u64, V)| e.0).push(x.0));
            let base_t = t.filter(val_pred).map_values(|e: (u64, V)| e.0);
            assert(base_t.push(x.0).drop_last() =~= base_t);
            assert(base_t.push(x.0).filter(|k: u64| k > a) == if x.0 > a {
                base_t.filter(|k: u64| k > a).push(x.0)
            } else {
                base_t.filter(|k: u64| k > a)
            });
            if cursor_pred(x) {
                assert(s.filter(cursor_pred) == t.filter(cursor_pred).push(x));
                assert(s.filter(cursor_pred).map_values(|e: (u64, V)| e.0) =~= t.filter(
                    cursor_pred,
                ).map_values(|e: (u64, V)| e.0).push(x.0));
            } else {
                assert(s.filter(cursor_pred) == t.filter(cursor_pred));
            }
        } else {
            assert(s.filter(val_pred) == t.filter(val_pred));
            assert(s.filter(cursor_pred) == t.filter(cursor_pred));
        }
    }
}

/// Every element a filter keeps comes from the sequence it filtered.
pub proof fn lemma_filter_subset<A>(s: Seq<A>, pred: spec_fn(A) -> bool, x: A)
    requires
        s.filter(pred).contains(x),
    ensures
        s.contains(x),
    decreases s.len(),
{
    reveal(Seq::filter);
    if s.len() > 0 {
        let t = s.drop_last();
        let kept = if pred(s.last()) {
            t.filter(pred).push(s.last())
        } else {
            t.filter(pred)
        };
        assert(s.filter(pred) == kept);
        if pred(s.last()) && x == s.last() {
            assert(s[s.len() - 1] == x);
        } else {
            assert(t.filter(pred).contains(x));
            lemma_filter_subset(t, pred, x);
            let y = choose|y: int| 0 <= y < t.len() && #[trigger] t[y] == x;
            assert(s[y] == x);
        }
    }
}

/// Filtering a listing with strictly increasing keys keeps its keys
/// strictly increasing.
pub proof fn lemma_filter_keys_sorted<V>(s: Seq<(u64, V)>, pred: spec_fn((u64, V)) -> bool)
    requires
        forall|i: int, j: int| 0 <= i < j < s.len() ==> s[i].0 < s[j].0,
    ensures
        sorted(s.filter(pred).map_values(|e: (u64, V)| e.0)),
    decreases s.len(),
{
    reveal(Seq::filter);
    if s.len() > 0 {
        let t = s.drop_last();
        lemma_filter_keys_sorted(t, pred);
        let x = s.last();
        let base_t = t.filter(pred).map_values(|e: (u64, V)| e.0);
        if pred(x) {
            assert(s.filter(pred) == t.filter(pred).push(x));
            let base_s = s.filter(pred).map_values(|e: (u64, V)| e.0);
            assert(base_s =~= base_t.push(x.0));
            assert forall|i: int, j: int| 0 <= i < j < base_s.len() implies base_s[i]
                < base_s[j] by {
                if j < base_s.len() - 1 {
                    assert(base_t[i] < base_t[j]);
                } else {
                    let ti = t.filter(pred)[i];
                    assert(t.filter(pred).contains(ti));
                    lemma_filter_subset(t, pred, ti);
                    let y = choose|y: int| 0 <= y < t.len() && #[trigger] t[y] == ti;
                    assert(s[y] == ti);
                    assert(s[y].0 < x.0);
                }
            }
        } else {
            assert(s.filter(pred) == t.filter(pred));
        }
    }
}

/// Pagination is complete: a page is an exact contiguous cut of the full
/// listing, and restarting from the last key seen continues precisely at
/// the next element, so that walking pages to exhaustion yields the same
/// keys, in the same order, as one unbounded listing.
pub proof fn lemma_pagination_complete(s: Seq<u64>, start_after: Option<u64>, limit: int)
    requires
        sorted(s),
        limit >= 0,
    ensures
        after(s, start_after) == s.skip(s.len() - after(s, start_after).len()),
        page(s, start_after, limit).len() < limit
            ==> page(s, start_after, limit) == after(s, start_after),
        page(s, start_after, limit).len() > 0 ==> after(
            s,
            Some(page(s, start_after, limit).last()),
        ) == after(s, start_after).skip(page(s, start_after, limit).len() as int),
{
    let aft = after(s, start_after);
    let c: int = match start_after {
        None => {
            assert(s.skip(0) =~= s);
            0
        },
        Some(a) => lemma_cut(s, a),
    };
    assert(aft == s.skip(c));
    assert(aft.len() == s.len() - c);
    assert(c == s.len() - aft.len());
    let p = page(s, start_after, limit);
    if p.len() > 0 {
        let m = p.len() as int;
        assert(m <= aft.len());
        assert(p == aft.take(m)) by {
            if limit > aft.len() {
                lemma_take_full(aft);
            }
        }
        assert(p.last() == aft[m - 1]);
        assert(aft[m - 1] == s[c + m - 1]);
        let last = p.last();
        let c2 = lemma_cut(s, last);
        assert(c2 == c + m) by {
            assert(s[c + m - 1] <= last);
            if c2 < c + m {
                assert(s[c + m - 1] > last);
            }
            if c2 > c + m {
                assert(s[c + m] <= last);
                assert(s[c + m - 1] < s[c + m]);
            }
        }
        assert(after(s, Some(last)) == s.skip(c + m));
        assert(s.skip(c + m) =~= aft.skip(m));
    }
}

} // verus!
