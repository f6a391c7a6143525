//! What holds of JSON objects and of the form in which they are kept.

use vstd::prelude::*;

use crate::json::canonical;
use crate::json::canonical_items;
use crate::json::canonical_pairs;
use crate::json::collected;
use crate::json::is_canonical;
use crate::json::key_index;
use crate::json::key_index_from;
use crate::json::key_slot;
use crate::json::keys_increase;
use crate::json::object_view;
use crate::json::with_key;
use crate::json::JsonNumber;
use crate::json::JsonView;
use crate::order::lemma_text_order;
use crate::order::text_lt;

verus! {

/// The value of the last of the first `n` pairs with a key.
pub open spec fn last_at(given: Seq<(Seq<char>, JsonView)>, key: Seq<char>, n: int) -> Option<
    JsonView,
>
    decreases n,
{
    if n <= 0 {
        None
    } else if given[n - 1].0 == key {
        Some(given[n - 1].1)
    } else {
        last_at(given, key, n - 1)
    }
}

/// The place for a key is behind the keys that stand before it.
pub proof fn lemma_key_slot(pairs: Seq<(Seq<char>, JsonView)>, key: Seq<char>, i: int)
    requires
        0 <= i <= pairs.len(),
    ensures
        i <= key_slot(pairs, key, i) <= pairs.len(),
        forall|k: int|
            i <= k < key_slot(pairs, key, i) ==> text_lt((#[trigger] pairs[k]).0, key),
        key_slot(pairs, key, i) < pairs.len() ==> (pairs[key_slot(pairs, key, i)].0 == key
            || text_lt(key, pairs[key_slot(pairs, key, i)].0)),
    decreases pairs.len() - i,
{
    if i < pairs.len() {
        lemma_text_order(key, pairs[i].0, key);
        if !(pairs[i].0 == key || text_lt(key, pairs[i].0)) {
            lemma_key_slot(pairs, key, i + 1);
        }
    }
}

proof fn lemma_key_index(pairs: Seq<(Seq<char>, JsonView)>, key: Seq<char>, i: int)
    requires
        0 <= i <= pairs.len(),
    ensures
        i <= key_index_from(pairs, key, i) <= pairs.len(),
        forall|k: int|
            i <= k < key_index_from(pairs, key, i) ==> (#[trigger] pairs[k]).0 != key,
        key_index_from(pairs, key, i) < pairs.len() ==> pairs[key_index_from(pairs, key, i)].0
            == key,
    decreases pairs.len() - i,
{
    if i < pairs.len() && pairs[i].0 != key {
        lemma_key_index(pairs, key, i + 1);
    }
}

/// In an object whose keys increase, a pair is found by its key.
pub proof fn lemma_found(pairs: Seq<(Seq<char>, JsonView)>, i: int)
    requires
        keys_increase(pairs),
        0 <= i < pairs.len(),
    ensures
        JsonView::Object(pairs).at_key(pairs[i].0) == Some(pairs[i].1),
{
    let key = pairs[i].0;
    lemma_key_index(pairs, key, 0);
    let k = key_index(pairs, key);
    assert(k <= i);
    if k < i {
        assert(text_lt(pairs[k].0, pairs[i].0));
        lemma_text_order(key, key, key);
    }
}

/// Setting a key keeps the keys increasing, and changes what is under that key
/// alone.
pub proof fn lemma_with_key(
    pairs: Seq<(Seq<char>, JsonView)>,
    key: Seq<char>,
    value: JsonView,
    other: Seq<char>,
)
    requires
        keys_increase(pairs),
    ensures
        keys_increase(with_key(pairs, key, value)),
        JsonView::Object(with_key(pairs, key, value)).at_key(key) == Some(value),
        other != key ==> JsonView::Object(with_key(pairs, key, value)).at_key(other)
            == JsonView::Object(pairs).at_key(other),
{
    let slot = key_slot(pairs, key, 0);
    let after = with_key(pairs, key, value);
    lemma_key_slot(pairs, key, 0);
    let replaced = slot < pairs.len() && pairs[slot].0 == key;
    if replaced {
        assert forall|i: int, j: int| 0 <= i < j < after.len() implies text_lt(
            (#[trigger] after[i]).0,
            (#[trigger] after[j]).0,
        ) by {
            assert(after[i].0 == pairs[i].0 && after[j].0 == pairs[j].0);
        }
    } else {
        assert forall|i: int, j: int| 0 <= i < j < after.len() implies text_lt(
            (#[trigger] after[i]).0,
            (#[trigger] after[j]).0,
        ) by {
            let p = if i < slot {
                i
            } else {
                i - 1
            };
            let q = if j < slot {
                j
            } else {
                j - 1
            };
            if i == slot {
                assert(after[j] == pairs[q]);
                if q > slot {
                    assert(text_lt(pairs[slot].0, pairs[q].0));
                    lemma_text_order(key, pairs[slot].0, pairs[q].0);
                }
            } else if j == slot {
                assert(after[i] == pairs[p]);
            } else {
                assert(after[i] == pairs[p] && after[j] == pairs[q]);
            }
        }
    }
    lemma_found(after, slot);
    if other != key {
        lemma_key_index(pairs, other, 0);
        lemma_key_index(after, other, 0);
        let a = key_index(pairs, other);
        let b = key_index(after, other);
        if a < pairs.len() {
            let c = if replaced || a < slot {
                a
            } else {
                a + 1
            };
            assert(after[c] == pairs[a]);
            lemma_found(after, c);
        } else if b < after.len() {
            let c = if replaced || b < slot {
                b
            } else {
                b - 1
            };
            assert(b != slot);
            assert(after[b] == pairs[c]);
        }
    }
}

/// Gathering pairs in an object keeps its keys increasing; under each key is the
/// value of the last pair with it.
proof fn lemma_collected(given: Seq<(Seq<char>, JsonView)>, key: Seq<char>, n: int)
    requires
        0 <= n <= given.len(),
    ensures
        keys_increase(collected(given, n)),
        JsonView::Object(collected(given, n)).at_key(key) == last_at(given, key, n),
    decreases n,
{
    if n > 0 {
        lemma_collected(given, key, n - 1);
        lemma_with_key(collected(given, n - 1), given[n - 1].0, given[n - 1].1, key);
    }
}

/// The keys of an object increase; of the pairs that it was made of, the last one
/// with a key is the one that is found by it, and no other key is found.
pub proof fn law_object_lookup(given: Seq<(Seq<char>, JsonView)>, key: Seq<char>)
    ensures
        keys_increase(object_view(given)->Object_0),
        object_view(given).at_key(key) == last_at(given, key, given.len() as int),
{
    lemma_collected(given, key, given.len() as int);
}

/// Pairs whose keys increase make an object of just these pairs.
proof fn lemma_collected_same(pairs: Seq<(Seq<char>, JsonView)>, n: int)
    requires
        keys_increase(pairs),
        0 <= n <= pairs.len(),
    ensures
        collected(pairs, n) == pairs.take(n),
    decreases n,
{
    if n <= 0 {
        assert(pairs.take(n) =~= Seq::empty());
    } else {
        lemma_collected_same(pairs, n - 1);
        let before = pairs.take(n - 1);
        let key = pairs[n - 1].0;
        lemma_key_slot(before, key, 0);
        let slot = key_slot(before, key, 0);
        if slot < before.len() {
            assert(before[slot] == pairs[slot]);
            assert(text_lt(pairs[slot].0, pairs[n - 1].0));
            lemma_text_order(pairs[slot].0, key, pairs[slot].0);
            lemma_text_order(key, pairs[slot].0, key);
        }
        assert(with_key(before, key, pairs[n - 1].1) =~= pairs.take(n));
    }
}

/// Every pair of an object is one of those that it was made of.
pub proof fn lemma_collected_from(given: Seq<(Seq<char>, JsonView)>, n: int)
    requires
        0 <= n <= given.len(),
    ensures
        forall|i: int|
            0 <= i < collected(given, n).len() ==> exists|k: int|
                0 <= k < n && #[trigger] given[k] == #[trigger] collected(given, n)[i],
    decreases n,
{
    if n > 0 {
        lemma_collected_from(given, n - 1);
        let before = collected(given, n - 1);
        let after = collected(given, n);
        let key = given[n - 1].0;
        let slot = key_slot(before, key, 0);
        lemma_key_slot(before, key, 0);
        let replaced = slot < before.len() && before[slot].0 == key;
        assert forall|i: int| 0 <= i < after.len() implies exists|k: int|
            0 <= k < n && #[trigger] given[k] == #[trigger] after[i] by {
            if i == slot {
                assert(given[n - 1] == after[i]);
            } else {
                let m = if replaced || i < slot {
                    i
                } else {
                    i - 1
                };
                assert(after[i] == before[m]);
                let k = choose|k: int| 0 <= k < n - 1 && #[trigger] given[k] == before[m];
                assert(given[k] == after[i]);
            }
        }
    }
}

/// A value that is in the form in which values are kept is kept as it stands.
pub proof fn law_canonical_is_kept(j: JsonView)
    requires
        is_canonical(j),
    ensures
        canonical(j) == j,
    decreases j,
{
    match j {
        JsonView::Array(items) => {
            assert forall|i: int| 0 <= i < items.len() implies canonical_items(items)[i]
                == items[i] by {
                assert(decreases_to!(j => j->Array_0));
                assert(is_canonical(items[i]));
                law_canonical_is_kept(items[i]);
            }
            assert(canonical_items(items) =~= items);
        },
        JsonView::Object(pairs) => {
            assert forall|i: int| 0 <= i < pairs.len() implies canonical_pairs(pairs)[i]
                == pairs[i] by {
                assert(decreases_to!(j => j->Object_0));
                assert(decreases_to!(pairs => pairs[i]));
                assert(is_canonical(pairs[i].1));
                law_canonical_is_kept(pairs[i].1);
            }
            assert(canonical_pairs(pairs) =~= pairs);
            lemma_collected_same(pairs, pairs.len() as int);
            assert(pairs.take(pairs.len() as int) =~= pairs);
        },
        _ => {},
    }
}

/// An object made of values in the form in which values are kept is in that form.
pub proof fn law_object_is_canonical(given: Seq<(Seq<char>, JsonView)>)
    requires
        forall|i: int| 0 <= i < given.len() ==> is_canonical((#[trigger] given[i]).1),
    ensures
        is_canonical(object_view(given)),
{
    let n = given.len() as int;
    lemma_collected(given, Seq::empty(), n);
    lemma_collected_from(given, n);
    assert forall|i: int| 0 <= i < collected(given, n).len() implies is_canonical(
        (#[trigger] collected(given, n)[i]).1,
    ) by {
        let k = choose|k: int| 0 <= k < n && #[trigger] given[k] == collected(given, n)[i];
        assert(is_canonical(given[k].1));
    }
}

proof fn lemma_last_pair(given: Seq<(Seq<char>, JsonView)>, i: int, n: int)
    requires
        0 <= i < n <= given.len(),
        forall|j: int| i < j < n ==> (#[trigger] given[j]).0 != given[i].0,
    ensures
        last_at(given, given[i].0, n) == Some(given[i].1),
    decreases n,
{
    if i < n - 1 {
        lemma_last_pair(given, i, n - 1);
    }
}

/// What the last pair with a key says stands under that key.
pub proof fn lemma_pair_found(given: Seq<(Seq<char>, JsonView)>, i: int)
    requires
        0 <= i < given.len(),
        forall|j: int| i < j < given.len() ==> (#[trigger] given[j]).0 != given[i].0,
    ensures
        object_view(given).at_key(given[i].0) == Some(given[i].1),
{
    law_object_lookup(given, given[i].0);
    lemma_last_pair(given, i, given.len() as int);
}

proof fn lemma_no_last_pair(given: Seq<(Seq<char>, JsonView)>, key: Seq<char>, n: int)
    requires
        0 <= n <= given.len(),
        forall|j: int| 0 <= j < n ==> (#[trigger] given[j]).0 != key,
    ensures
        last_at(given, key, n) is None,
    decreases n,
{
    if n > 0 {
        lemma_no_last_pair(given, key, n - 1);
    }
}

/// Nothing stands under a key that no pair has.
pub proof fn lemma_no_other_key(given: Seq<(Seq<char>, JsonView)>, key: Seq<char>)
    requires
        forall|j: int| 0 <= j < given.len() ==> (#[trigger] given[j]).0 != key,
    ensures
        object_view(given).at_key(key) is None,
{
    law_object_lookup(given, key);
    lemma_no_last_pair(given, key, given.len() as int);
}

/// Looking a key up in an object gives the value of the first pair with that key, and
/// nothing where there is none; nothing is found in what is no object.
pub proof fn law_lookup_finds_the_first_pair(value: JsonView, key: Seq<char>)
    ensures
        match (value, value.at_key(key)) {
            (JsonView::Object(pairs), Some(v)) => exists|i: int|
                0 <= i < pairs.len() && #[trigger] pairs[i] == (key, v) && forall|j: int|
                    0 <= j < i ==> (#[trigger] pairs[j]).0 != key,
            (JsonView::Object(pairs), None) => forall|i: int|
                0 <= i < pairs.len() ==> (#[trigger] pairs[i]).0 != key,
            (_, found) => found is None,
        },
{
    if let JsonView::Object(pairs) = value {
        lemma_key_index(pairs, key, 0);
        let i = key_index(pairs, key);
        if i < pairs.len() {
            assert(pairs[i] == (key, pairs[i].1));
        }
    }
}

/// Bringing a value into the form in which values are kept changes an array item by
/// item, and an object value by value: under each key is then what the last pair with
/// it said. Texts, booleans and integers that are no less than zero stay as they are.
pub proof fn law_canonical_form_holds_the_same(
    items: Seq<JsonView>,
    pairs: Seq<(Seq<char>, JsonView)>,
    i: int,
    s: Seq<char>,
    b: bool,
    n: u64,
)
    requires
        0 <= i < pairs.len(),
        forall|j: int| i < j < pairs.len() ==> (#[trigger] pairs[j]).0 != pairs[i].0,
    ensures
        canonical(JsonView::Array(items)) matches JsonView::Array(kept) && kept.len()
            == items.len() && forall|k: int|
            0 <= k < items.len() ==> #[trigger] kept[k] == canonical(items[k]),
        canonical(JsonView::Object(pairs)).at_key(pairs[i].0) == Some(canonical(pairs[i].1)),
        canonical(JsonView::String(s)) == JsonView::String(s),
        canonical(JsonView::Bool(b)) == JsonView::Bool(b),
        canonical(JsonView::Null) == JsonView::Null,
        canonical(JsonView::Number(JsonNumber::Unsigned(n))) == JsonView::Number(
            JsonNumber::Unsigned(n),
        ),
{
    let given = canonical_pairs(pairs);
    assert forall|j: int| i < j < given.len() implies (#[trigger] given[j]).0 != given[i].0 by {
        assert(pairs[j].0 != pairs[i].0);
    }
    lemma_pair_found(given, i);
}

} // verus!
