//! The entries of a map value in the order of their keys.

use vstd::prelude::*;

use std::cmp::Ordering;

use crate::value::entry_views;
use crate::value::fits;
use crate::value::key_lt;
use crate::value::lemma_key_order;
use crate::value::same_key_type;
use crate::value::Val;
use crate::value::ValView;
use crate::xdr::order_of;
use crate::xdr::val_held;

verus! {

/// The place behind the entries whose keys do not stand after `key`, looked for
/// from the `i`-th entry on.
pub open spec fn slot_for(sorted: Seq<(ValView, ValView)>, key: ValView, i: int) -> int
    decreases sorted.len() - i,
{
    if i < 0 || i >= sorted.len() {
        sorted.len() as int
    } else if key_lt(key, sorted[i].0) {
        i
    } else {
        slot_for(sorted, key, i + 1)
    }
}

/// The first `n` entries in the order of their keys; entries with the same key
/// stay in the order in which they are given.
pub open spec fn sorted_upto(entries: Seq<(ValView, ValView)>, n: int) -> Seq<(ValView, ValView)>
    decreases n,
{
    if n <= 0 {
        Seq::empty()
    } else {
        let sorted = sorted_upto(entries, n - 1);
        sorted.insert(slot_for(sorted, entries[n - 1].0, 0), entries[n - 1])
    }
}

/// The entries in the order of their keys.
pub open spec fn sorted(entries: Seq<(ValView, ValView)>) -> Seq<(ValView, ValView)> {
    sorted_upto(entries, entries.len() as int)
}

/// Whether the entries' keys are of one type and keep to the limits of the wire
/// format.
pub open spec fn comparable(entries: Seq<(ValView, ValView)>) -> bool {
    &&& forall|i: int| 0 <= i < entries.len() ==> fits((#[trigger] entries[i]).0)
    &&& forall|i: int, j: int|
        0 <= i < entries.len() && 0 <= j < entries.len() ==> same_key_type(
            (#[trigger] entries[i]).0,
            (#[trigger] entries[j]).0,
        )
}

/// Whether no entry stands before one with a smaller key.
pub open spec fn in_key_order(entries: Seq<(ValView, ValView)>) -> bool {
    forall|i: int, j: int|
        0 <= i < j < entries.len() ==> !key_lt(
            (#[trigger] entries[j]).0,
            (#[trigger] entries[i]).0,
        )
}

/// What holds of an entry with a given key.
pub open spec fn has_key(key: ValView) -> spec_fn((ValView, ValView)) -> bool {
    |e: (ValView, ValView)| e.0 == key
}

/// The entries with a given key, in their order.
pub open spec fn with_same_key(entries: Seq<(ValView, ValView)>, key: ValView) -> Seq<
    (ValView, ValView),
> {
    entries.filter(has_key(key))
}

/// The place for a key is behind the entries whose keys do not stand after it.
pub proof fn lemma_slot(sorted: Seq<(ValView, ValView)>, key: ValView, i: int)
    requires
        0 <= i <= sorted.len(),
    ensures
        i <= slot_for(sorted, key, i) <= sorted.len(),
        slot_for(sorted, key, i) < sorted.len() ==> key_lt(
            key,
            sorted[slot_for(sorted, key, i)].0,
        ),
        forall|k: int|
            i <= k < slot_for(sorted, key, i) ==> !key_lt(key, (#[trigger] sorted[k]).0),
    decreases sorted.len() - i,
{
    if i < sorted.len() && !key_lt(key, sorted[i].0) {
        lemma_slot(sorted, key, i + 1);
    }
}

/// What sorting keeps: the length, and that every entry is one of those given.
pub proof fn lemma_sorted_from(entries: Seq<(ValView, ValView)>, n: int)
    requires
        0 <= n <= entries.len(),
    ensures
        sorted_upto(entries, n).len() == n,
        forall|i: int|
            0 <= i < n ==> exists|k: int|
                0 <= k < n && #[trigger] entries[k] == #[trigger] sorted_upto(entries, n)[i],
    decreases n,
{
    if n > 0 {
        lemma_sorted_from(entries, n - 1);
        let before = sorted_upto(entries, n - 1);
        let slot = slot_for(before, entries[n - 1].0, 0);
        lemma_slot(before, entries[n - 1].0, 0);
        let after = sorted_upto(entries, n);
        assert forall|i: int| 0 <= i < n implies exists|k: int|
            0 <= k < n && #[trigger] entries[k] == #[trigger] after[i] by {
            if i == slot {
                assert(entries[n - 1] == after[i]);
            } else {
                let m = if i < slot {
                    i
                } else {
                    i - 1
                };
                assert(after[i] == before[m]);
                let k = choose|k: int| 0 <= k < n - 1 && #[trigger] entries[k] == before[m];
                assert(entries[k] == after[i]);
            }
        }
    }
}

proof fn lemma_sorted_upto(entries: Seq<(ValView, ValView)>, n: int, key: ValView)
    requires
        comparable(entries),
        0 <= n <= entries.len(),
    ensures
        in_key_order(sorted_upto(entries, n)),
        with_same_key(sorted_upto(entries, n), key) == with_same_key(entries.take(n), key),
    decreases n,
{
    reveal(Seq::filter);
    if n <= 0 {
        assert(entries.take(n) =~= Seq::empty());
    } else {
        lemma_sorted_upto(entries, n - 1, key);
        lemma_sorted_from(entries, n - 1);
        let before = sorted_upto(entries, n - 1);
        let e = entries[n - 1];
        let slot = slot_for(before, e.0, 0);
        lemma_slot(before, e.0, 0);
        let after = before.insert(slot, e);
        assert forall|i: int| 0 <= i < before.len() implies same_key_type(
            (#[trigger] before[i]).0,
            e.0,
        ) && same_key_type(before[i].0, before[i].0) by {
            let k = choose|k: int| 0 <= k < n - 1 && #[trigger] entries[k] == before[i];
            assert(same_key_type(entries[k].0, entries[n - 1].0));
            assert(same_key_type(entries[k].0, entries[k].0));
        }
        assert forall|i: int| slot <= i < before.len() implies key_lt(
            e.0,
            (#[trigger] before[i]).0,
        ) by {
            let a = e.0;
            let b = before[slot].0;
            let c = before[i].0;
            assert(same_key_type(before[slot].0, e.0));
            assert(same_key_type(before[i].0, e.0));
            if i > slot {
                assert(!key_lt(before[i].0, before[slot].0));
                lemma_key_order(a, b, c);
                lemma_key_order(b, c, b);
            }
        }
        assert forall|i: int, j: int| 0 <= i < j < after.len() implies !key_lt(
            (#[trigger] after[j]).0,
            (#[trigger] after[i]).0,
        ) by {
            let p = if i < slot {
                i
            } else {
                i - 1
            };
            let q = if j < slot {
                j
            } else {
                j - 1
            };
            if i == slot {
                assert(after[j] == before[q]);
                lemma_key_order(e.0, before[q].0, e.0);
            } else if j == slot {
                assert(after[i] == before[p]);
                assert(!key_lt(e.0, before[p].0));
            } else {
                assert(after[i] == before[p] && after[j] == before[q]);
            }
        }
        let pred = has_key(key);
        let low = before.take(slot);
        let high = before.skip(slot);
        assert(before =~= low + high);
        assert(after =~= low.push(e) + high);
        Seq::filter_distributes_over_add(low, high, pred);
        Seq::filter_distributes_over_add(low.push(e), high, pred);
        assert(low.push(e).drop_last() =~= low);
        assert(entries.take(n).drop_last() =~= entries.take(n - 1));
        assert(entries.take(n).last() == e);
        if e.0 == key {
            assert forall|i: int| 0 <= i < high.len() implies !pred(#[trigger] high[i]) by {
                assert(high[i] == before[slot + i]);
                assert(key_lt(e.0, before[slot + i].0));
                lemma_key_order(e.0, before[slot + i].0, e.0);
            }
            lemma_filter_none(high, pred);
        }
        assert(after.filter(pred) =~= if e.0 == key {
            before.filter(pred).push(e)
        } else {
            before.filter(pred)
        });
    }
}

proof fn lemma_filter_none(s: Seq<(ValView, ValView)>, pred: spec_fn((ValView, ValView)) -> bool)
    requires
        forall|i: int| 0 <= i < s.len() ==> !pred(#[trigger] s[i]),
    ensures
        s.filter(pred) == Seq::<(ValView, ValView)>::empty(),
    decreases s.len(),
{
    reveal(Seq::filter);
    if s.len() > 0 {
        assert forall|i: int| 0 <= i < s.drop_last().len() implies !pred(
            #[trigger] s.drop_last()[i],
        ) by {
            assert(s.drop_last()[i] == s[i]);
        }
        lemma_filter_none(s.drop_last(), pred);
    }
}

/// Sorting puts entries in the order of their keys, and for each key keeps the
/// entries that have it, in the order in which they were given.
pub proof fn law_entries_are_sorted(entries: Seq<(ValView, ValView)>, key: ValView)
    requires
        comparable(entries),
    ensures
        sorted(entries).len() == entries.len(),
        in_key_order(sorted(entries)),
        with_same_key(sorted(entries), key) == with_same_key(entries, key),
{
    lemma_sorted_from(entries, entries.len() as int);
    lemma_sorted_upto(entries, entries.len() as int, key);
    assert(entries.take(entries.len() as int) =~= entries);
}

/// Puts entries in the order of their keys.
pub fn sort_entries(entries: Vec<(Val, Val)>) -> (r: Vec<(Val, Val)>)
    requires
        comparable(entry_views(entries@)),
    ensures
        entry_views(r@) == sorted(entry_views(entries@)),
{
    let ghost all = entries@;
    let ghost given = entry_views(all);
    let mut keys: Vec<stellar_xdr::ScVal> = Vec::new();
    let mut out: Vec<(Val, Val)> = Vec::new();
    assert(entry_views(out@) =~= sorted_upto(given, 0));
    for entry in it: entries
        invariant
            it.seq() == all,
            given == entry_views(all),
            comparable(given),
            entry_views(out@) == sorted_upto(given, it.index()),
            out@.len() == it.index(),
            keys@.len() == out@.len(),
            forall|k: int| 0 <= k < out@.len() ==> val_held(#[trigger] keys@[k]) == out@[k].0@,
    {
        let ghost n = it.index();
        let ghost done = entry_views(out@);
        proof {
            assert(given[n] == (entry.0@, entry.1@));
            lemma_sorted_from(given, n);
        }
        match entry.0.to_xdr() {
            Some(key) => {
                let slot = find_slot(&keys, &key, Ghost(done), Ghost(given), Ghost(n));
                keys.insert(slot, key);
                out.insert(slot, entry);
                assert(entry_views(out@) =~= done.insert(slot as int, given[n]));
            },
            None => {
                assert(false);
            },
        }
    }
    out
}

/// Whether a key stands before another of its type.
fn stands_before(a: &stellar_xdr::ScVal, b: &stellar_xdr::ScVal) -> (r: bool)
    requires
        same_key_type(val_held(*a), val_held(*b)),
    ensures
        r == key_lt(val_held(*a), val_held(*b)),
{
    proof {
        lemma_key_order(val_held(*a), val_held(*b), val_held(*a));
    }
    match order_of(a, b) {
        Ordering::Less => true,
        Ordering::Equal => false,
        Ordering::Greater => false,
    }
}

fn find_slot(
    keys: &Vec<stellar_xdr::ScVal>,
    key: &stellar_xdr::ScVal,
    Ghost(done): Ghost<Seq<(ValView, ValView)>>,
    Ghost(given): Ghost<Seq<(ValView, ValView)>>,
    Ghost(n): Ghost<int>,
) -> (r: usize)
    requires
        comparable(given),
        0 <= n < given.len(),
        done == sorted_upto(given, n),
        keys@.len() == done.len(),
        val_held(*key) == given[n].0,
        forall|k: int| 0 <= k < done.len() ==> val_held(#[trigger] keys@[k]) == done[k].0,
    ensures
        r == slot_for(done, given[n].0, 0),
        r <= keys@.len(),
{
    let mut i: usize = 0;
    while i < keys.len()
        invariant
            comparable(given),
            0 <= n < given.len(),
            done == sorted_upto(given, n),
            keys@.len() == done.len(),
            val_held(*key) == given[n].0,
            forall|k: int| 0 <= k < done.len() ==> val_held(#[trigger] keys@[k]) == done[k].0,
            i <= keys@.len(),
            slot_for(done, given[n].0, 0) == slot_for(done, given[n].0, i as int),
        decreases keys@.len() - i,
    {
        proof {
            lemma_sorted_from(given, n);
            let k = choose|k: int| 0 <= k < n && #[trigger] given[k] == done[i as int];
            assert(same_key_type(given[n].0, given[k].0));
            lemma_key_order(given[n].0, given[k].0, given[n].0);
        }
        if stands_before(key, &keys[i]) {
            return i;
        }
        i += 1;
    }
    i
}

} // verus!
