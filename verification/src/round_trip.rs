//! What is rendered as JSON reads back as what was rendered.

use vstd::prelude::*;

use crate::encoding::hex_text;
use crate::encoding::is_plain;
use crate::encoding::law_hex_is_read_back;
use crate::encoding::law_plain_text_is_taken_as_it_is;
use crate::encoding::lossy_text;
use crate::encoding::wire_bytes;
use crate::entries::comparable;
use crate::entries::law_entries_are_sorted;
use crate::entries::lemma_sorted_from;
use crate::entries::sorted;
use crate::entries::sorted_upto;
use crate::interface::StructView;
use crate::interface::TypeView;
use crate::json::collected;
use crate::json::key_index;
use crate::json::key_slot;
use crate::json::object_view;
use crate::json::JsonView;
use crate::json_laws::last_at;
use crate::json_laws::law_object_lookup;
use crate::json_laws::lemma_collected_from;
use crate::json_laws::lemma_key_slot;
use crate::render::has_like_keys;
use crate::render::has_text_keys;
use crate::render::json_of;
use crate::render::jsons_of;
use crate::render::key_text;
use crate::render::lemma_entry_part;
use crate::render::lemma_item_part;
use crate::render::pairs_of;
use crate::render::strkeys_read_back;
use crate::scval::entries_upto;
use crate::scval::fields_upto;
use crate::scval::i128_value;
use crate::scval::is_tuple_struct;
use crate::scval::key_of;
use crate::scval::law_i128_parts;
use crate::scval::law_u128_parts;
use crate::scval::struct_val;
use crate::scval::u128_value;
use crate::scval::udt_val;
use crate::scval::val_of;
use crate::scval::vals_upto;
use crate::scval::ListTypesView;
use crate::order::lemma_text_order;
use crate::order::text_lt;
use crate::spec::SpecView;
use crate::text::law_decimal_is_read_back;
use crate::value::fits;
use crate::value::key_lt;
use crate::value::lemma_key_order;
use crate::value::same_key_type;
use crate::value::ValView;
use crate::xdr_types::lemma_type_parts;

verus! {

/// Whether bytes are the UTF-8 of a text that stands for its own bytes.
pub open spec fn is_text(b: Seq<u8>) -> bool {
    vstd::utf8::valid_utf8(b) && is_plain(vstd::utf8::decode_utf8(b))
}

/// The text of such bytes stands for them on the wire.
proof fn lemma_text_back(b: Seq<u8>)
    requires
        is_text(b),
    ensures
        wire_bytes(lossy_text(b)) == Some(b),
{
    law_plain_text_is_taken_as_it_is(lossy_text(b));
    vstd::utf8::decode_utf8_encode_utf8(b);
}

/// Whether each key stands before the next.
pub open spec fn keys_ascend(entries: Seq<(ValView, ValView)>) -> bool {
    forall|i: int, j: int|
        0 <= i < j < entries.len() ==> key_lt((#[trigger] entries[i]).0, (#[trigger] entries[j]).0)
}

/// Whether a value is a key that a JSON object's key stands for, in a map with
/// keys of a type.
pub open spec fn is_text_key(v: ValView, key_type: TypeView) -> bool {
    match (v, key_type) {
        (ValView::Symbol(b), TypeView::Symbol) => is_text(b) && b.len() <= 32,
        (ValView::String(b), TypeView::String) => is_text(b) && b.len() <= u32::MAX,
        (ValView::Bool(_), TypeView::Bool) => true,
        (ValView::U32(_), TypeView::U32) => true,
        (ValView::I32(_), TypeView::I32) => true,
        (ValView::U64(_), TypeView::U64) => true,
        (ValView::I64(_), TypeView::I64) => true,
        (ValView::Address(a), TypeView::Address) => a is Account || a is Contract,
        (ValView::Address(a), TypeView::MuxedAddress) => a is Account || a is Contract,
        _ => false,
    }
}

/// Whether the keys of entries are such that JSON object's keys stand for them, and
/// none is `__xdr`.
pub open spec fn has_plain_keys(entries: Seq<(ValView, ValView)>, key_type: TypeView) -> bool {
    forall|i: int|
        0 <= i < entries.len() ==> is_text_key((#[trigger] entries[i]).0, key_type) && key_text(
            entries[i].0,
        ) != "__xdr"@
}

/// The place of a key among entries, from the `i`-th on, or their number.
pub open spec fn entry_index(entries: Seq<(ValView, ValView)>, key: ValView, i: int) -> int
    decreases entries.len() - i,
{
    if i < 0 || i >= entries.len() {
        entries.len() as int
    } else if entries[i].0 == key {
        i
    } else {
        entry_index(entries, key, i + 1)
    }
}

/// The symbol that names a field.
pub open spec fn field_key(name: Seq<char>) -> ValView {
    ValView::Symbol(vstd::utf8::encode_utf8(name))
}

/// Whether the names of a struct's fields are symbols, each of one field, and none
/// is `__xdr`.
pub open spec fn has_plain_fields(s: StructView) -> bool {
    &&& forall|i: int|
        0 <= i < s.fields.len() ==> is_plain((#[trigger] s.fields[i]).name)
            && vstd::utf8::encode_utf8(s.fields[i].name).len() <= 32 && s.fields[i].name
            != "__xdr"@
    &&& forall|i: int, j: int|
        0 <= i < j < s.fields.len() ==> (#[trigger] s.fields[i]).name != (
        #[trigger] s.fields[j]).name
}

/// Whether a value is one of a type, such that its JSON is read as that type.
/// Among the types that the contract defines these are structs, enums and enums of
/// errors, not unions; among maps those whose keys a JSON object's keys stand for.
/// Texts have no backslash, and no key is `__xdr`.
pub open spec fn readable(v: ValView, t: TypeView, spec: SpecView) -> bool
    decreases v, t,
{
    match t {
        TypeView::Bool => v is Bool,
        TypeView::Void => v is Void,
        TypeView::U32 => v is U32,
        TypeView::I32 => v is I32,
        TypeView::U64 => v is U64,
        TypeView::I64 => v is I64,
        TypeView::Timepoint => v is Timepoint,
        TypeView::Duration => v is Duration,
        TypeView::U128 => v is U128,
        TypeView::I128 => v is I128,
        TypeView::Bytes => v matches ValView::Bytes(b) && b.len() <= u32::MAX,
        TypeView::BytesN(n) => v matches ValView::Bytes(b) && b.len() == n,
        TypeView::String => v matches ValView::String(b) && is_text(b),
        TypeView::Symbol => v matches ValView::Symbol(b) && is_text(b) && b.len() <= 32,
        TypeView::Address | TypeView::MuxedAddress => v matches ValView::Address(a) && (a is Account
            || a is Contract),
        TypeView::Option(inner) => v is Void || readable(v, *inner, spec),
        TypeView::Vec(elem) => v matches ValView::Vec(Some(items)) && items.len() <= u32::MAX
            && forall|i: int| 0 <= i < items.len() ==> readable(#[trigger] items[i], *elem, spec),
        TypeView::Tuple(types) => v matches ValView::Vec(Some(items)) && items.len() <= u32::MAX
            && items.len() == types.len() && forall|i: int|
            0 <= i < items.len() ==> readable(#[trigger] items[i], types[i], spec),
        TypeView::Mapping(kt, vt) => v matches ValView::Mapping(Some(entries)) && entries.len()
            <= u32::MAX && keys_ascend(entries) && has_plain_keys(entries, *kt) && forall|i: int|
            0 <= i < entries.len() ==> readable((#[trigger] entries[i]).1, *vt, spec),
        TypeView::Udt(name) => match spec.find_struct(lossy_text(name)) {
            Some(s) => if is_tuple_struct(s) {
                v matches ValView::Vec(Some(items)) && items.len() <= u32::MAX && items.len()
                    == s.fields.len() && forall|i: int|
                    0 <= i < items.len() ==> readable(
                        #[trigger] items[i],
                        s.fields[i].type_,
                        spec,
                    )
            } else {
                v matches ValView::Mapping(Some(entries)) && entries.len() <= u32::MAX
                    && entries.len() == s.fields.len() && keys_ascend(entries)
                    && has_plain_fields(s) && has_plain_keys(entries, TypeView::Symbol)
                    && forall|i: int|
                    0 <= i < s.fields.len() ==> {
                        let j = entry_index(entries, field_key((#[trigger] s.fields[i]).name), 0);
                        0 <= j < entries.len() && readable(entries[j].1, s.fields[i].type_, spec)
                    }
            },
            None => spec.find_union(lossy_text(name)) is None && match spec.find_enum(
                lossy_text(name),
            ) {
                Some(e) => v matches ValView::U32(n) && exists|i: int|
                    0 <= i < e.cases.len() && (#[trigger] e.cases[i]).value == n,
                None => spec.find_error_enum(lossy_text(name)) is Some && v is U32,
            },
        },
        _ => false,
    }
}

proof fn lemma_entry_index(entries: Seq<(ValView, ValView)>, key: ValView, i: int)
    requires
        0 <= i <= entries.len(),
    ensures
        i <= entry_index(entries, key, i) <= entries.len(),
        entry_index(entries, key, i) < entries.len() ==> entries[entry_index(entries, key, i)].0
            == key,
    decreases entries.len() - i,
{
    if i < entries.len() && entries[i].0 != key {
        lemma_entry_index(entries, key, i + 1);
    }
}

/// Places that increase within a range are the whole range, each in its place.
proof fn lemma_increasing_places(f: Seq<int>, i: int)
    requires
        forall|k: int| 0 <= k < f.len() ==> 0 <= #[trigger] f[k] < f.len(),
        forall|a: int, b: int| 0 <= a < b < f.len() ==> #[trigger] f[a] < #[trigger] f[b],
        0 <= i < f.len(),
    ensures
        f[i] == i,
{
    lemma_places_from_below(f, i);
    lemma_places_from_above(f, i);
}

proof fn lemma_places_from_below(f: Seq<int>, i: int)
    requires
        forall|k: int| 0 <= k < f.len() ==> 0 <= #[trigger] f[k] < f.len(),
        forall|a: int, b: int| 0 <= a < b < f.len() ==> #[trigger] f[a] < #[trigger] f[b],
        0 <= i < f.len(),
    ensures
        f[i] >= i,
    decreases i,
{
    if i > 0 {
        lemma_places_from_below(f, i - 1);
        assert(f[i - 1] < f[i]);
    }
}

proof fn lemma_places_from_above(f: Seq<int>, i: int)
    requires
        forall|k: int| 0 <= k < f.len() ==> 0 <= #[trigger] f[k] < f.len(),
        forall|a: int, b: int| 0 <= a < b < f.len() ==> #[trigger] f[a] < #[trigger] f[b],
        0 <= i < f.len(),
    ensures
        f[i] <= i,
    decreases f.len() - i,
{
    if i < f.len() - 1 {
        lemma_places_from_above(f, i + 1);
        assert(f[i] < f[i + 1]);
    }
}

/// Entries with ascending keys, given in any order, are sorted into that order.
proof fn lemma_sorts_back(given: Seq<(ValView, ValView)>, wanted: Seq<(ValView, ValView)>)
    requires
        given.len() == wanted.len(),
        comparable(given),
        keys_ascend(wanted),
        forall|i: int|
            0 <= i < given.len() ==> exists|k: int|
                0 <= k < wanted.len() && #[trigger] wanted[k] == #[trigger] given[i],
        forall|i: int, j: int|
            0 <= i < j < given.len() ==> (#[trigger] given[i]).0 != (#[trigger] given[j]).0,
    ensures
        sorted(given) == wanted,
{
    let n = given.len() as int;
    let s = sorted(given);
    law_entries_are_sorted(given, ValView::Void);
    lemma_sorted_from(given, n);
    assert forall|i: int| 0 <= i < n implies exists|k: int|
        0 <= k < n && #[trigger] wanted[k] == #[trigger] s[i] by {
        let g = choose|g: int| 0 <= g < n && #[trigger] given[g] == s[i];
        let k = choose|k: int| 0 <= k < n && #[trigger] wanted[k] == given[g];
        assert(wanted[k] == s[i]);
    }
    let f = Seq::new(
        n as nat,
        |i: int| choose|k: int| 0 <= k < n && #[trigger] wanted[k] == s[i],
    );
    assert forall|i: int| 0 <= i < n implies 0 <= #[trigger] f[i] < n && wanted[f[i]] == s[i] by {
        let k = choose|k: int| 0 <= k < n && #[trigger] wanted[k] == s[i];
        assert(f[i] == k);
    }
    lemma_sorted_distinct(given, n);
    assert forall|a: int, b: int| 0 <= a < b < n implies #[trigger] f[a] < #[trigger] f[b] by {
        assert(wanted[f[a]] == s[a] && wanted[f[b]] == s[b]);
        assert(s[a].0 != s[b].0);
        assert(!key_lt(s[b].0, s[a].0));
        if f[b] < f[a] {
            assert(key_lt(wanted[f[b]].0, wanted[f[a]].0));
        }
    }
    assert forall|i: int| 0 <= i < n implies s[i] == wanted[i] by {
        lemma_increasing_places(f, i);
    }
    assert(s =~= wanted);
}

/// Sorting keeps keys distinct.
proof fn lemma_sorted_distinct(given: Seq<(ValView, ValView)>, n: int)
    requires
        0 <= n <= given.len(),
        forall|i: int, j: int|
            0 <= i < j < given.len() ==> (#[trigger] given[i]).0 != (#[trigger] given[j]).0,
    ensures
        sorted_upto(given, n).len() == n,
        forall|i: int, j: int|
            0 <= i < j < n ==> (#[trigger] sorted_upto(given, n)[i]).0 != (
            #[trigger] sorted_upto(given, n)[j]).0,
    decreases n,
{
    if n > 0 {
        lemma_sorted_distinct(given, n - 1);
        lemma_sorted_from(given, n - 1);
        lemma_sorted_from(given, n);
        let before = sorted_upto(given, n - 1);
        let after = sorted_upto(given, n);
        let e = given[n - 1];
        let slot = crate::entries::slot_for(before, e.0, 0);
        crate::entries::lemma_slot(before, e.0, 0);
        assert forall|i: int| 0 <= i < before.len() implies (#[trigger] before[i]).0 != e.0 by {
            let k = choose|k: int| 0 <= k < n - 1 && #[trigger] given[k] == before[i];
            assert(given[k].0 != given[n - 1].0);
        }
        assert forall|i: int, j: int| 0 <= i < j < n implies (#[trigger] after[i]).0 != (
        #[trigger] after[j]).0 by {
            let p = if i < slot {
                i
            } else {
                i - 1
            };
            let q = if j < slot {
                j
            } else {
                j - 1
            };
            if i == slot {
                assert(after[j] == before[q]);
            } else if j == slot {
                assert(after[i] == before[p]);
            } else {
                assert(after[i] == before[p] && after[j] == before[q]);
            }
        }
    }
}

/// A list reads back if its elements do.
proof fn lemma_list_back(
    items: Seq<ValView>,
    types: ListTypesView,
    spec: SpecView,
    n: int,
)
    requires
        0 <= n <= items.len(),
        forall|i: int|
            0 <= i < items.len() ==> val_of(json_of(#[trigger] items[i]), types.at(i), spec) == Ok::<
                ValView,
                Seq<char>,
            >(items[i]),
    ensures
        vals_upto(jsons_of(items), types, spec, n) == Ok::<Seq<ValView>, Seq<char>>(items.take(n)),
    decreases n,
{
    if n <= 0 {
        assert(items.take(n) =~= Seq::empty());
    } else {
        lemma_list_back(items, types, spec, n - 1);
        assert(jsons_of(items)[n - 1] == json_of(items[n - 1]));
        assert(items.take(n - 1).push(items[n - 1]) =~= items.take(n));
    }
}

/// A pair with a key that no other pair has is the last with it.
proof fn lemma_only_pair(given: Seq<(Seq<char>, JsonView)>, key: Seq<char>, j: int, n: int)
    requires
        0 <= j < n <= given.len(),
        given[j].0 == key,
        forall|i: int| 0 <= i < n && i != j ==> (#[trigger] given[i]).0 != key,
    ensures
        last_at(given, key, n) == Some(given[j].1),
    decreases n,
{
    if n - 1 > j {
        lemma_only_pair(given, key, j, n - 1);
    }
}

/// A key that no pair has is not found.
proof fn lemma_no_pair(given: Seq<(Seq<char>, JsonView)>, key: Seq<char>, n: int)
    requires
        0 <= n <= given.len(),
        forall|i: int| 0 <= i < n ==> (#[trigger] given[i]).0 != key,
    ensures
        last_at(given, key, n) is None,
    decreases n,
{
    if n > 0 {
        lemma_no_pair(given, key, n - 1);
    }
}

/// Pairs with distinct keys all go into the object.
proof fn lemma_all_collected(given: Seq<(Seq<char>, JsonView)>, n: int)
    requires
        0 <= n <= given.len(),
        forall|i: int, j: int|
            0 <= i < j < given.len() ==> (#[trigger] given[i]).0 != (#[trigger] given[j]).0,
    ensures
        collected(given, n).len() == n,
    decreases n,
{
    if n > 0 {
        lemma_all_collected(given, n - 1);
        lemma_collected_from(given, n - 1);
        let before = collected(given, n - 1);
        let key = given[n - 1].0;
        let slot = key_slot(before, key, 0);
        lemma_key_slot(before, key, 0);
        if slot < before.len() && before[slot].0 == key {
            let k = choose|k: int| 0 <= k < n - 1 && #[trigger] given[k] == before[slot];
            assert(given[k].0 != given[n - 1].0);
        }
    }
}

/// The text of a key reads back as the key.
proof fn lemma_key_back(v: ValView, key_type: TypeView)
    requires
        is_text_key(v, key_type),
        strkeys_read_back(v),
    ensures
        key_of(key_text(v), key_type) == Ok::<ValView, Seq<char>>(v),
{
    match v {
        ValView::Symbol(b) => lemma_text_back(b),
        ValView::String(b) => lemma_text_back(b),
        ValView::Bool(_) => {
            reveal_strlit("true");
            reveal_strlit("false");
            assert("true"@.len() == 4 && "false"@.len() == 5);
        },
        ValView::U32(n) => law_decimal_is_read_back(n as int, 0, u32::MAX as int),
        ValView::I32(n) => law_decimal_is_read_back(n as int, i32::MIN as int, i32::MAX as int),
        ValView::U64(n) => law_decimal_is_read_back(n as int, 0, u64::MAX as int),
        ValView::I64(n) => law_decimal_is_read_back(n as int, i64::MIN as int, i64::MAX as int),
        _ => {},
    }
}

/// The keys of a map with plain keys are of one type, and their texts are distinct
/// and none is `__xdr`.
proof fn lemma_plain_keys(entries: Seq<(ValView, ValView)>, key_type: TypeView)
    requires
        keys_ascend(entries),
        has_plain_keys(entries, key_type),
        forall|i: int| 0 <= i < entries.len() ==> strkeys_read_back((#[trigger] entries[i]).0),
    ensures
        has_text_keys(entries),
        comparable(entries),
        forall|i: int, j: int|
            0 <= i < j < entries.len() ==> (#[trigger] pairs_of(entries)[i]).0 != (
            #[trigger] pairs_of(entries)[j]).0,
        object_view(pairs_of(entries)).at_key("__xdr"@) is None,
        forall|i: int, j: int|
            0 <= i < j < entries.len() ==> (#[trigger] entries[i]).0 != (#[trigger] entries[j]).0,
        forall|i: int|
            0 <= i < entries.len() ==> key_of(key_text((#[trigger] entries[i]).0), key_type) == Ok::<
                ValView,
                Seq<char>,
            >(entries[i].0),
{
    let pairs = pairs_of(entries);
    assert forall|i: int| 0 <= i < entries.len() implies key_of(
        key_text((#[trigger] entries[i]).0),
        key_type,
    ) == Ok::<ValView, Seq<char>>(entries[i].0) by {
        assert(is_text_key(entries[i].0, key_type));
        assert(strkeys_read_back(entries[i].0));
        lemma_key_back(entries[i].0, key_type);
    }
    assert forall|i: int, j: int| 0 <= i < j < entries.len() implies (#[trigger] entries[i]).0 != (
    #[trigger] entries[j]).0 by {
        assert(is_text_key(entries[i].0, key_type) && is_text_key(entries[j].0, key_type));
        lemma_key_order(entries[i].0, entries[j].0, entries[i].0);
    }
    assert forall|i: int, j: int| 0 <= i < j < entries.len() implies (#[trigger] pairs[i]).0 != (
    #[trigger] pairs[j]).0 by {
        assert(entries[i].0 != entries[j].0);
        assert(key_of(key_text(entries[i].0), key_type) == Ok::<ValView, Seq<char>>(entries[i].0));
        assert(key_of(key_text(entries[j].0), key_type) == Ok::<ValView, Seq<char>>(entries[j].0));
    }
    assert forall|i: int, j: int|
        0 <= i < entries.len() && 0 <= j < entries.len() implies same_key_type(
        (#[trigger] entries[i]).0,
        (#[trigger] entries[j]).0,
    ) by {
        assert(is_text_key(entries[i].0, key_type) && is_text_key(entries[j].0, key_type));
    }
    assert forall|i: int| 0 <= i < entries.len() implies fits((#[trigger] entries[i]).0) by {
        assert(is_text_key(entries[i].0, key_type));
    }
    assert forall|i: int| 0 <= i < pairs.len() implies (#[trigger] pairs[i]).0 != "__xdr"@ by {
        assert(key_text(entries[i].0) != "__xdr"@);
    }
    lemma_no_pair(pairs, "__xdr"@, pairs.len() as int);
    law_object_lookup(pairs, "__xdr"@);
    assert(has_like_keys(entries));
}

/// The first `n` pairs of the object that a map renders as read back as entries of
/// the map.
proof fn lemma_pairs_back(
    entries: Seq<(ValView, ValView)>,
    pairs: Seq<(Seq<char>, JsonView)>,
    places: Seq<int>,
    kt: TypeView,
    vt: TypeView,
    spec: SpecView,
    n: int,
)
    requires
        places.len() == pairs.len(),
        forall|i: int|
            0 <= i < pairs.len() ==> {
                &&& 0 <= #[trigger] places[i] < entries.len()
                &&& key_of(pairs[i].0, kt) == Ok::<ValView, Seq<char>>(entries[places[i]].0)
                &&& val_of(pairs[i].1, vt, spec) == Ok::<ValView, Seq<char>>(entries[places[i]].1)
            },
        0 <= n <= pairs.len(),
    ensures
        entries_upto(pairs, kt, vt, spec, n) == Ok::<Seq<(ValView, ValView)>, Seq<char>>(
            Seq::new(n as nat, |i: int| entries[places[i]]),
        ),
    decreases n,
{
    if n <= 0 {
        assert(Seq::new(n as nat, |i: int| entries[places[i]]) =~= Seq::empty());
    } else {
        lemma_pairs_back(entries, pairs, places, kt, vt, spec, n - 1);
        let k = places[n - 1];
        assert(Seq::new((n - 1) as nat, |i: int| entries[places[i]]).push(
            (entries[k].0, entries[k].1),
        ) =~= Seq::new(n as nat, |i: int| entries[places[i]]));
    }
}

/// A map with plain keys reads back if its values do.
proof fn lemma_map_back(
    entries: Seq<(ValView, ValView)>,
    kt: TypeView,
    vt: TypeView,
    spec: SpecView,
)
    requires
        entries.len() <= u32::MAX,
        keys_ascend(entries),
        has_plain_keys(entries, kt),
        forall|i: int| 0 <= i < entries.len() ==> strkeys_read_back((#[trigger] entries[i]).0),
        forall|i: int|
            0 <= i < entries.len() ==> val_of(json_of((#[trigger] entries[i]).1), vt, spec) == Ok::<
                ValView,
                Seq<char>,
            >(entries[i].1),
    ensures
        val_of(
            json_of(ValView::Mapping(Some(entries))),
            TypeView::Mapping(Box::new(kt), Box::new(vt)),
            spec,
        ) == Ok::<ValView, Seq<char>>(ValView::Mapping(Some(entries))),
{
    lemma_plain_keys(entries, kt);
    let given = pairs_of(entries);
    let n = given.len() as int;
    let pairs = collected(given, n);
    lemma_all_collected(given, n);
    lemma_collected_from(given, n);
    law_object_lookup(given, "__xdr"@);
    let places = Seq::new(
        n as nat,
        |i: int| choose|k: int| 0 <= k < n && #[trigger] given[k] == pairs[i],
    );
    assert forall|i: int| 0 <= i < n implies {
        &&& 0 <= #[trigger] places[i] < n
        &&& given[places[i]] == pairs[i]
        &&& key_of(pairs[i].0, kt) == Ok::<ValView, Seq<char>>(entries[places[i]].0)
        &&& val_of(pairs[i].1, vt, spec) == Ok::<ValView, Seq<char>>(entries[places[i]].1)
    } by {
        let k = choose|k: int| 0 <= k < n && #[trigger] given[k] == pairs[i];
        assert(places[i] == k);
        assert(given[k] == (key_text(entries[k].0), json_of(entries[k].1)));
    }
    lemma_pairs_back(entries, pairs, places, kt, vt, spec, n);
    let read = Seq::new(n as nat, |i: int| entries[places[i]]);
    assert forall|i: int| 0 <= i < read.len() implies exists|k: int|
        0 <= k < entries.len() && #[trigger] entries[k] == #[trigger] read[i] by {
        assert(entries[places[i]] == read[i]);
    }
    assert forall|i: int, j: int| 0 <= i < j < read.len() implies (#[trigger] read[i]).0 != (
    #[trigger] read[j]).0 by {
        assert(read[i] == entries[places[i]] && read[j] == entries[places[j]]);
        if places[i] == places[j] {
            assert(pairs[i].0 == pairs[j].0);
            assert(text_lt(pairs[i].0, pairs[j].0));
            lemma_text_order(pairs[i].0, pairs[j].0, pairs[i].0);
        } else if places[i] < places[j] {
            assert(entries[places[i]].0 != entries[places[j]].0);
        } else {
            assert(entries[places[j]].0 != entries[places[i]].0);
        }
    }
    assert forall|i: int, j: int| 0 <= i < read.len() && 0 <= j < read.len() implies same_key_type(
        (#[trigger] read[i]).0,
        (#[trigger] read[j]).0,
    ) by {
        assert(same_key_type(entries[places[i]].0, entries[places[j]].0));
    }
    assert forall|i: int| 0 <= i < read.len() implies fits((#[trigger] read[i]).0) by {
        assert(fits(entries[places[i]].0));
    }
    lemma_sorts_back(read, entries);
}

/// The first `n` fields of a struct read back as entries of the map that the struct
/// is.
proof fn lemma_fields_back(
    entries: Seq<(ValView, ValView)>,
    s: StructView,
    spec: SpecView,
    n: int,
)
    requires
        entries.len() == s.fields.len(),
        keys_ascend(entries),
        has_plain_fields(s),
        has_plain_keys(entries, TypeView::Symbol),
        forall|i: int| 0 <= i < entries.len() ==> strkeys_read_back((#[trigger] entries[i]).0),
        forall|i: int|
            0 <= i < s.fields.len() ==> {
                let j = entry_index(entries, field_key((#[trigger] s.fields[i]).name), 0);
                &&& 0 <= j < entries.len()
                &&& val_of(json_of(entries[j].1), s.fields[i].type_, spec) == Ok::<
                    ValView,
                    Seq<char>,
                >(entries[j].1)
            },
        0 <= n <= s.fields.len(),
    ensures
        fields_upto(collected(pairs_of(entries), entries.len() as int), s, spec, n) == Ok::<
            Seq<(ValView, ValView)>,
            Seq<char>,
        >(
            Seq::new(
                n as nat,
                |i: int| entries[entry_index(entries, field_key(s.fields[i].name), 0)],
            ),
        ),
    decreases n,
{
    let given = pairs_of(entries);
    let pairs = collected(given, entries.len() as int);
    let read = Seq::new(
        n as nat,
        |i: int| entries[entry_index(entries, field_key(s.fields[i].name), 0)],
    );
    if n <= 0 {
        assert(read =~= Seq::empty());
    } else {
        lemma_fields_back(entries, s, spec, n - 1);
        lemma_plain_keys(entries, TypeView::Symbol);
        let name = s.fields[n - 1].name;
        let j = entry_index(entries, field_key(name), 0);
        lemma_entry_index(entries, field_key(name), 0);
        law_plain_text_is_taken_as_it_is(name);
        vstd::utf8::encode_utf8_valid_utf8(name);
        vstd::utf8::encode_utf8_decode_utf8(name);
        assert(given[j].0 == name);
        assert forall|i: int| 0 <= i < given.len() && i != j implies (#[trigger] given[i]).0
            != name by {
            if i < j {
                assert(given[i].0 != given[j].0);
            } else {
                assert(given[j].0 != given[i].0);
            }
        }
        lemma_only_pair(given, name, j, given.len() as int);
        law_object_lookup(given, name);
        let i = key_index(pairs, name);
        assert(0 <= i < pairs.len() && pairs[i].1 == json_of(entries[j].1));
        assert(Seq::new(
            (n - 1) as nat,
            |i: int| entries[entry_index(entries, field_key(s.fields[i].name), 0)],
        ).push((field_key(name), entries[j].1)) =~= read);
    }
}

/// A struct with named fields reads back if the values of its fields do.
proof fn lemma_struct_back(entries: Seq<(ValView, ValView)>, s: StructView, spec: SpecView)
    requires
        entries.len() <= u32::MAX,
        !is_tuple_struct(s),
        entries.len() == s.fields.len(),
        keys_ascend(entries),
        has_plain_fields(s),
        has_plain_keys(entries, TypeView::Symbol),
        forall|i: int| 0 <= i < entries.len() ==> strkeys_read_back((#[trigger] entries[i]).0),
        forall|i: int|
            0 <= i < s.fields.len() ==> {
                let j = entry_index(entries, field_key((#[trigger] s.fields[i]).name), 0);
                &&& 0 <= j < entries.len()
                &&& val_of(json_of(entries[j].1), s.fields[i].type_, spec) == Ok::<
                    ValView,
                    Seq<char>,
                >(entries[j].1)
            },
    ensures
        struct_val(s, json_of(ValView::Mapping(Some(entries))), spec) == Ok::<ValView, Seq<char>>(
            ValView::Mapping(Some(entries)),
        ),
{
    let n = s.fields.len() as int;
    lemma_plain_keys(entries, TypeView::Symbol);
    lemma_fields_back(entries, s, spec, n);
    let read = Seq::new(
        n as nat,
        |i: int| entries[entry_index(entries, field_key(s.fields[i].name), 0)],
    );
    assert forall|i: int| 0 <= i < read.len() implies exists|k: int|
        0 <= k < entries.len() && #[trigger] entries[k] == #[trigger] read[i] by {
        assert(s.fields[i].name == s.fields[i].name);
        assert(entries[entry_index(entries, field_key(s.fields[i].name), 0)] == read[i]);
    }
    assert forall|i: int| 0 <= i < read.len() implies (#[trigger] read[i]).0 == field_key(
        s.fields[i].name,
    ) by {
        lemma_entry_index(entries, field_key(s.fields[i].name), 0);
    }
    assert forall|i: int, j: int| 0 <= i < j < read.len() implies (#[trigger] read[i]).0 != (
    #[trigger] read[j]).0 by {
        assert(s.fields[i].name != s.fields[j].name);
        vstd::utf8::encode_utf8_decode_utf8(s.fields[i].name);
        vstd::utf8::encode_utf8_decode_utf8(s.fields[j].name);
    }
    assert forall|i: int| 0 <= i < read.len() implies fits((#[trigger] read[i]).0) by {
        assert(s.fields[i].name == s.fields[i].name);
    }
    lemma_sorts_back(read, entries);
}

/// The rendering of a value is null only for the value that says there is none.
proof fn lemma_null_is_void(v: ValView, t: TypeView, spec: SpecView)
    requires
        readable(v, t, spec),
        json_of(v) is Null,
    ensures
        v is Void,
    decreases t,
{
    if let TypeView::Option(inner) = t {
        lemma_type_parts(t);
        if !(v is Void) {
            lemma_null_is_void(v, *inner, spec);
        }
    }
}

/// The types that are not made of others, and that no contract defines.
spec fn is_scalar(t: TypeView) -> bool {
    match t {
        TypeView::Option(_) => false,
        TypeView::Vec(_) => false,
        TypeView::Tuple(_) => false,
        TypeView::Mapping(_, _) => false,
        TypeView::Udt(_) => false,
        _ => true,
    }
}

/// Numbers of 64 bits and more read back.
proof fn lemma_number_back(v: ValView, t: TypeView, spec: SpecView)
    requires
        readable(v, t, spec),
        v is U64 || v is I64 || v is Timepoint || v is Duration || v is U128 || v is I128,
        is_scalar(t),
    ensures
        val_of(json_of(v), t, spec) == Ok::<ValView, Seq<char>>(v),
{
    match v {
        ValView::U64(n) => law_decimal_is_read_back(n as int, 0, u64::MAX as int),
        ValView::Timepoint(n) => law_decimal_is_read_back(n as int, 0, u64::MAX as int),
        ValView::Duration(n) => law_decimal_is_read_back(n as int, 0, u64::MAX as int),
        ValView::I64(n) => law_decimal_is_read_back(n as int, i64::MIN as int, i64::MAX as int),
        ValView::U128(p) => {
            law_u128_parts(0, p);
            law_decimal_is_read_back(u128_value(p), 0, u128::MAX as int);
        },
        ValView::I128(p) => {
            law_i128_parts(0, p);
            law_decimal_is_read_back(i128_value(p), i128::MIN as int, i128::MAX as int);
        },
        _ => {},
    }
}

/// Bytes and texts read back.
proof fn lemma_bytes_back(v: ValView, t: TypeView, spec: SpecView)
    requires
        readable(v, t, spec),
        v is Bytes || v is String || v is Symbol,
        is_scalar(t),
    ensures
        val_of(json_of(v), t, spec) == Ok::<ValView, Seq<char>>(v),
{
    match v {
        ValView::Bytes(b) => {
            reveal_strlit("0x");
            law_hex_is_read_back(b);
            let s = "0x"@ + hex_text(b);
            assert(s[0] == '0' && s[1] == 'x');
            assert(s.skip(2) =~= hex_text(b));
        },
        ValView::String(b) => lemma_text_back(b),
        ValView::Symbol(b) => lemma_text_back(b),
        _ => {},
    }
}

/// A list of a type reads back if its elements do.
proof fn lemma_vec_back(items: Seq<ValView>, elem: TypeView, spec: SpecView)
    requires
        items.len() <= u32::MAX,
        forall|i: int|
            0 <= i < items.len() ==> val_of(json_of(#[trigger] items[i]), elem, spec) == Ok::<
                ValView,
                Seq<char>,
            >(items[i]),
    ensures
        val_of(
            json_of(ValView::Vec(Some(items))),
            TypeView::Vec(Box::new(elem)),
            spec,
        ) == Ok::<ValView, Seq<char>>(ValView::Vec(Some(items))),
{
    lemma_list_back(items, ListTypesView::Each(elem), spec, items.len() as int);
    assert(items.take(items.len() as int) =~= items);
}

/// A tuple reads back if its elements do.
proof fn lemma_tuple_back(items: Seq<ValView>, types: Seq<TypeView>, spec: SpecView)
    requires
        items.len() <= u32::MAX,
        items.len() == types.len(),
        forall|i: int|
            0 <= i < items.len() ==> val_of(json_of(#[trigger] items[i]), types[i], spec) == Ok::<
                ValView,
                Seq<char>,
            >(items[i]),
    ensures
        val_of(json_of(ValView::Vec(Some(items))), TypeView::Tuple(types), spec) == Ok::<
            ValView,
            Seq<char>,
        >(ValView::Vec(Some(items))),
{
    lemma_list_back(items, ListTypesView::Listed(types), spec, items.len() as int);
    assert(items.take(items.len() as int) =~= items);
}

/// A struct with numbered fields reads back if the values of its fields do.
proof fn lemma_tuple_struct_back(items: Seq<ValView>, s: StructView, spec: SpecView)
    requires
        items.len() <= u32::MAX,
        is_tuple_struct(s),
        items.len() == s.fields.len(),
        forall|i: int|
            0 <= i < items.len() ==> val_of(json_of(#[trigger] items[i]), s.fields[i].type_, spec)
                == Ok::<ValView, Seq<char>>(items[i]),
    ensures
        struct_val(s, json_of(ValView::Vec(Some(items))), spec) == Ok::<ValView, Seq<char>>(
            ValView::Vec(Some(items)),
        ),
{
    lemma_list_back(items, ListTypesView::Fields(s.fields), spec, items.len() as int);
    assert(items.take(items.len() as int) =~= items);
}

/// A value of a type, rendered as JSON, reads back as that type as the value it
/// was: what a call returns can be given to a call. This holds of the values that
/// [`readable`] describes.
pub proof fn law_rendering_reads_back(v: ValView, t: TypeView, spec: SpecView)
    requires
        readable(v, t, spec),
        strkeys_read_back(v),
    ensures
        val_of(json_of(v), t, spec) == Ok::<ValView, Seq<char>>(v),
    decreases v, 1int, t,
{
    match t {
        TypeView::Option(inner) => {
            lemma_type_parts(t);
            if json_of(v) is Null {
                lemma_null_is_void(v, t, spec);
            } else {
                law_rendering_reads_back(v, *inner, spec);
                lemma_option_back(v, *inner, spec);
            }
        },
        TypeView::Vec(elem) => {
            if let ValView::Vec(Some(items)) = v {
                assert forall|i: int| 0 <= i < items.len() implies val_of(
                    json_of(#[trigger] items[i]),
                    *elem,
                    spec,
                ) == Ok::<ValView, Seq<char>>(items[i]) by {
                    lemma_item_part(v, items, i);
                    law_rendering_reads_back(items[i], *elem, spec);
                }
                lemma_vec_back(items, *elem, spec);
            }
        },
        TypeView::Tuple(types) => {
            if let ValView::Vec(Some(items)) = v {
                assert forall|i: int| 0 <= i < items.len() implies val_of(
                    json_of(#[trigger] items[i]),
                    types[i],
                    spec,
                ) == Ok::<ValView, Seq<char>>(items[i]) by {
                    lemma_item_part(v, items, i);
                    law_rendering_reads_back(items[i], types[i], spec);
                }
                lemma_tuple_back(items, types, spec);
            }
        },
        TypeView::Mapping(kt, vt) => {
            if let ValView::Mapping(Some(entries)) = v {
                assert forall|i: int| 0 <= i < entries.len() implies val_of(
                    json_of((#[trigger] entries[i]).1),
                    *vt,
                    spec,
                ) == Ok::<ValView, Seq<char>>(entries[i].1) by {
                    lemma_entry_part(v, entries, i);
                    law_rendering_reads_back(entries[i].1, *vt, spec);
                }
                lemma_map_back(entries, *kt, *vt, spec);
            }
        },
        TypeView::Udt(name) => {
            match (spec.find_struct(lossy_text(name)), v) {
                (Some(s), ValView::Vec(Some(items))) => lemma_numbered_fields_back(items, s, spec),
                (Some(s), ValView::Mapping(Some(entries))) => lemma_named_fields_back(
                    entries,
                    s,
                    spec,
                ),
                _ => {},
            }
            assert(udt_val(lossy_text(name), json_of(v), spec) == Ok::<ValView, Seq<char>>(v));
        },
        _ => {
            if v is Bytes || v is String || v is Symbol {
                lemma_bytes_back(v, t, spec);
            } else if v is U64 || v is I64 || v is Timepoint || v is Duration || v is U128
                || v is I128 {
                lemma_number_back(v, t, spec);
            }
        },
    }
}

/// An optional value that is there reads back if it reads back as what it is.
proof fn lemma_option_back(v: ValView, inner: TypeView, spec: SpecView)
    requires
        !(json_of(v) is Null),
        val_of(json_of(v), inner, spec) == Ok::<ValView, Seq<char>>(v),
    ensures
        val_of(json_of(v), TypeView::Option(Box::new(inner)), spec) == Ok::<ValView, Seq<char>>(v),
{
}

/// The values of a struct's numbered fields read back, and so does the struct.
proof fn lemma_numbered_fields_back(items: Seq<ValView>, s: StructView, spec: SpecView)
    requires
        is_tuple_struct(s),
        items.len() <= u32::MAX,
        items.len() == s.fields.len(),
        forall|i: int|
            0 <= i < items.len() ==> readable(#[trigger] items[i], s.fields[i].type_, spec),
        strkeys_read_back(ValView::Vec(Some(items))),
    ensures
        struct_val(s, json_of(ValView::Vec(Some(items))), spec) == Ok::<ValView, Seq<char>>(
            ValView::Vec(Some(items)),
        ),
    decreases ValView::Vec(Some(items)), 0int, TypeView::Void,
{
    assert forall|i: int| 0 <= i < items.len() implies val_of(
        json_of(#[trigger] items[i]),
        s.fields[i].type_,
        spec,
    ) == Ok::<ValView, Seq<char>>(items[i]) by {
        lemma_item_part(ValView::Vec(Some(items)), items, i);
        law_rendering_reads_back(items[i], s.fields[i].type_, spec);
    }
    lemma_tuple_struct_back(items, s, spec);
}

/// The values of a struct's named fields read back, and so does the struct.
proof fn lemma_named_fields_back(
    entries: Seq<(ValView, ValView)>,
    s: StructView,
    spec: SpecView,
)
    requires
        !is_tuple_struct(s),
        entries.len() <= u32::MAX,
        entries.len() == s.fields.len(),
        keys_ascend(entries),
        has_plain_fields(s),
        has_plain_keys(entries, TypeView::Symbol),
        forall|i: int|
            0 <= i < s.fields.len() ==> {
                let j = entry_index(entries, field_key((#[trigger] s.fields[i]).name), 0);
                0 <= j < entries.len() && readable(entries[j].1, s.fields[i].type_, spec)
            },
        strkeys_read_back(ValView::Mapping(Some(entries))),
    ensures
        struct_val(s, json_of(ValView::Mapping(Some(entries))), spec) == Ok::<ValView, Seq<char>>(
            ValView::Mapping(Some(entries)),
        ),
        json_of(ValView::Mapping(Some(entries))).at_key("__xdr"@) is None,
    decreases ValView::Mapping(Some(entries)), 0int, TypeView::Void,
{
    assert forall|i: int| 0 <= i < s.fields.len() implies ({
        let j = entry_index(entries, field_key((#[trigger] s.fields[i]).name), 0);
        &&& 0 <= j < entries.len()
        &&& val_of(json_of(entries[j].1), s.fields[i].type_, spec) == Ok::<ValView, Seq<char>>(
            entries[j].1,
        )
    }) by {
        let j = entry_index(entries, field_key(s.fields[i].name), 0);
        lemma_entry_part(ValView::Mapping(Some(entries)), entries, j);
        assert(strkeys_read_back(entries[j].1));
        law_rendering_reads_back(entries[j].1, s.fields[i].type_, spec);
    }
    lemma_struct_back(entries, s, spec);
    lemma_plain_keys(entries, TypeView::Symbol);
}

} // verus!
