//! What a JSON value has to be, and what it gives, for each type that it can be read
//! as.

use vstd::prelude::*;

use crate::encoding::account_of;
use crate::encoding::contract_of;
use crate::encoding::hex_bytes;
use crate::encoding::hex_value;
use crate::encoding::is_hex;
use crate::encoding::lossy_text;
use crate::encoding::unescaped;
use crate::encoding::wire_bytes;
use crate::entries::has_key;
use crate::entries::in_key_order;
use crate::entries::law_entries_are_sorted;
use crate::interface::EnumView;
use crate::interface::StructView;
use crate::interface::TypeView;
use crate::interface::UnionCaseView;
use crate::json::canonical;
use crate::json::key_index;
use crate::json::JsonNumber;
use crate::json::JsonView;
use crate::order::byte_codes;
use crate::order::bytes_lt;
use crate::scval::entries_upto;
use crate::scval::enum_val;
use crate::scval::error_enum_val;
use crate::scval::fields_upto;
use crate::scval::is_byte;
use crate::scval::key_of;
use crate::scval::struct_val;
use crate::scval::udt_val;
use crate::scval::union_val;
use crate::scval::val_of;
use crate::scval::vals_upto;
use crate::scval::ListTypesView;
use crate::scval_laws::case_object;
use crate::spec::SpecView;
use crate::text::decimal;
use crate::text::digits_value;
use crate::text::int_value;
use crate::value::fits;
use crate::value::key_lt;
use crate::value::same_key_type;
use crate::value::AddressView;
use crate::value::ValView;
use crate::xdr::val_of_json;

verus! {

/// Whether values are what items are read as, each item as the type in its place.
pub open spec fn are_read_as(
    items: Seq<JsonView>,
    types: Seq<TypeView>,
    spec: SpecView,
    vals: Seq<ValView>,
) -> bool {
    &&& vals.len() == items.len()
    &&& forall|i: int|
        0 <= i < items.len() ==> val_of(items[i], types[i], spec) == Ok::<ValView, Seq<char>>(
            #[trigger] vals[i],
        )
}

/// Whether some item cannot be read as the type in its place.
pub open spec fn some_fails(items: Seq<JsonView>, types: Seq<TypeView>, spec: SpecView) -> bool {
    exists|i: int| 0 <= i < items.len() && val_of(#[trigger] items[i], types[i], spec) is Err
}

/// Whether a result is the list of what items are read as, or a failure just where
/// one of them cannot be read or the list is too long.
pub open spec fn is_list_of(
    r: Result<ValView, Seq<char>>,
    items: Seq<JsonView>,
    types: Seq<TypeView>,
    spec: SpecView,
) -> bool {
    match r {
        Ok(v) => v matches ValView::Vec(Some(vals)) && vals.len() <= u32::MAX && are_read_as(
            items,
            types,
            spec,
            vals,
        ),
        Err(_) => items.len() > u32::MAX || some_fails(items, types, spec),
    }
}

proof fn lemma_vals(
    items: Seq<JsonView>,
    listed: ListTypesView,
    types: Seq<TypeView>,
    spec: SpecView,
    n: int,
)
    requires
        0 <= n <= items.len(),
        types.len() == items.len(),
        forall|i: int| 0 <= i < items.len() ==> listed.at(i) == #[trigger] types[i],
    ensures
        match vals_upto(items, listed, spec, n) {
            Ok(vals) => are_read_as(items.take(n), types, spec, vals),
            Err(_) => some_fails(items.take(n), types, spec),
        },
    decreases n,
{
    if n > 0 {
        lemma_vals(items, listed, types, spec, n - 1);
        assert(listed.at(n - 1) == types[n - 1]);
        let before = items.take(n - 1);
        let now = items.take(n);
        assert(now[n - 1] == items[n - 1]);
        match vals_upto(items, listed, spec, n - 1) {
            Ok(vals) => {
                if let Ok(v) = val_of(items[n - 1], types[n - 1], spec) {
                    let all = vals.push(v);
                    assert forall|i: int| 0 <= i < now.len() implies val_of(
                        now[i],
                        types[i],
                        spec,
                    ) == Ok::<ValView, Seq<char>>(#[trigger] all[i]) by {
                        if i < n - 1 {
                            assert(before[i] == now[i]);
                            assert(all[i] == vals[i]);
                        }
                    }
                }
            },
            Err(_) => {
                let i = choose|i: int|
                    0 <= i < before.len() && val_of(#[trigger] before[i], types[i], spec) is Err;
                assert(now[i] == before[i]);
            },
        }
    }
}

proof fn lemma_all_vals(
    items: Seq<JsonView>,
    listed: ListTypesView,
    types: Seq<TypeView>,
    spec: SpecView,
)
    requires
        types.len() == items.len(),
        forall|i: int| 0 <= i < items.len() ==> listed.at(i) == #[trigger] types[i],
    ensures
        match vals_upto(items, listed, spec, items.len() as int) {
            Ok(vals) => are_read_as(items, types, spec, vals),
            Err(_) => some_fails(items, types, spec),
        },
{
    lemma_vals(items, listed, types, spec, items.len() as int);
    assert(items.take(items.len() as int) =~= items);
}

/// A list is read item by item: the array's items in their order, each as the type of
/// the elements. Nothing but an array is a list.
pub proof fn law_list_is_read_item_by_item(
    items: Seq<JsonView>,
    elem: TypeView,
    types: Seq<TypeView>,
    spec: SpecView,
    other: JsonView,
)
    requires
        types.len() == items.len(),
        forall|i: int| 0 <= i < types.len() ==> #[trigger] types[i] == elem,
        !(other is Array),
        other.at_key("__xdr"@) is None,
    ensures
        is_list_of(
            val_of(JsonView::Array(items), TypeView::Vec(Box::new(elem)), spec),
            items,
            types,
            spec,
        ),
        val_of(other, TypeView::Vec(Box::new(elem)), spec) is Err,
{
    lemma_all_vals(items, ListTypesView::Each(elem), types, spec);
}

/// A tuple is read item by item, each item as the type in its place; there have to be
/// as many items as types, in an array.
pub proof fn law_tuple_is_read_item_by_item(
    items: Seq<JsonView>,
    types: Seq<TypeView>,
    spec: SpecView,
    other: JsonView,
)
    requires
        !(other is Array),
        other.at_key("__xdr"@) is None,
    ensures
        if items.len() == types.len() {
            is_list_of(
                val_of(JsonView::Array(items), TypeView::Tuple(types), spec),
                items,
                types,
                spec,
            )
        } else {
            val_of(JsonView::Array(items), TypeView::Tuple(types), spec) is Err
        },
        val_of(other, TypeView::Tuple(types), spec) is Err,
{
    if items.len() == types.len() {
        lemma_all_vals(items, ListTypesView::Listed(types), types, spec);
    }
}

/// A struct whose fields are numbered is read item by item, each item as the type of
/// the field in its place; there have to be as many items as fields, in an array.
pub proof fn law_numbered_fields_are_read_item_by_item(
    s: StructView,
    items: Seq<JsonView>,
    types: Seq<TypeView>,
    spec: SpecView,
    other: JsonView,
)
    requires
        s.fields.len() > 0,
        forall|i: int|
            0 <= i < s.fields.len() ==> (#[trigger] s.fields[i]).name == decimal(i),
        types.len() == s.fields.len(),
        forall|i: int| 0 <= i < types.len() ==> #[trigger] types[i] == s.fields[i].type_,
        !(other is Array),
    ensures
        if items.len() == s.fields.len() {
            is_list_of(struct_val(s, JsonView::Array(items), spec), items, types, spec)
        } else {
            struct_val(s, JsonView::Array(items), spec) is Err
        },
        struct_val(s, other, spec) is Err,
{
    if items.len() == s.fields.len() {
        lemma_all_vals(items, ListTypesView::Fields(s.fields), types, spec);
    }
}

/// A union's case with arguments gives a list: the symbol of the case, and behind it
/// what the arguments are read as, in their order and each as the type in its place.
/// There have to be as many arguments as the case has types.
pub proof fn law_case_is_read_argument_by_argument(
    name: Seq<char>,
    case: UnionCaseView,
    types: Seq<TypeView>,
    items: Seq<JsonView>,
    spec: SpecView,
    symbol: Seq<u8>,
)
    requires
        spec.find_union_case(name, case.name) == Some(case),
        case.types == Some(types),
        wire_bytes(case.name) == Some(symbol),
        symbol.len() <= 32,
    ensures
        ({
            let r = union_val(name, case_object(case.name, JsonView::Array(items)), spec);
            if items.len() != types.len() {
                r is Err
            } else {
                match r {
                    Ok(v) => match v {
                        ValView::Vec(Some(vals)) => {
                            &&& vals.len() == 1 + items.len()
                            &&& vals.len() <= u32::MAX
                            &&& vals[0] == ValView::Symbol(symbol)
                            &&& forall|i: int|
                                0 <= i < items.len() ==> val_of(#[trigger] items[i], types[i], spec)
                                    == Ok::<ValView, Seq<char>>(vals[i + 1])
                        },
                        _ => false,
                    },
                    Err(_) => items.len() + 1 > u32::MAX || some_fails(items, types, spec),
                }
            }
        }),
{
    let value = case_object(case.name, JsonView::Array(items));
    assert(value->Object_0[0] == (case.name, JsonView::Array(items)));
    assert(crate::scval::case_types(name, case.name, spec) == types);
    if items.len() == types.len() {
        lemma_all_vals(items, ListTypesView::Listed(types), types, spec);
        if let Ok(vals) = vals_upto(
            items,
            ListTypesView::Listed(types),
            spec,
            items.len() as int,
        ) {
            let all = seq![ValView::Symbol(symbol)] + vals;
            assert forall|i: int| 0 <= i < items.len() implies val_of(
                #[trigger] items[i],
                types[i],
                spec,
            ) == Ok::<ValView, Seq<char>>(all[i + 1]) by {
                assert(all[i + 1] == vals[i]);
            }
        }
    }
}

/// A case whose items are read as some values is the list of its symbol and these
/// values.
pub proof fn law_case_holds_its_arguments(
    name: Seq<char>,
    case: UnionCaseView,
    types: Seq<TypeView>,
    items: Seq<JsonView>,
    spec: SpecView,
    symbol: Seq<u8>,
    vals: Seq<ValView>,
)
    requires
        spec.find_union_case(name, case.name) == Some(case),
        case.types == Some(types),
        wire_bytes(case.name) == Some(symbol),
        symbol.len() <= 32,
        items.len() == types.len(),
        items.len() < u32::MAX,
        are_read_as(items, types, spec, vals),
    ensures
        union_val(name, case_object(case.name, JsonView::Array(items)), spec) matches Ok(
            ValView::Vec(Some(list)),
        ) && list.len() == 1 + types.len() && list[0] == ValView::Symbol(symbol) && forall|i: int|
            0 <= i < types.len() ==> list[i + 1] == #[trigger] vals[i],
{
    law_case_is_read_argument_by_argument(name, case, types, items, spec, symbol);
    assert forall|i: int| 0 <= i < items.len() implies val_of(#[trigger] items[i], types[i], spec)
        == Ok::<ValView, Seq<char>>(vals[i]) by {}
    let r = union_val(name, case_object(case.name, JsonView::Array(items)), spec);
    if let Ok(ValView::Vec(Some(list))) = r {
        assert forall|i: int| 0 <= i < types.len() implies list[i + 1] == #[trigger] vals[i] by {
            assert(val_of(items[i], types[i], spec) == Ok::<ValView, Seq<char>>(list[i + 1]));
        }
    }
}

/// What is no case of a union, what has not just one key, and a case whose name can be
/// no symbol, is refused.
pub proof fn law_other_cases_are_refused(name: Seq<char>, value: JsonView, spec: SpecView)
    ensures
        match value {
            JsonView::String(case) => spec.find_union_case(name, case) is None || !(wire_bytes(
                case,
            ) matches Some(b) && b.len() <= 32) ==> union_val(name, value, spec) is Err,
            JsonView::Object(pairs) => pairs.len() != 1 || spec.find_union_case(name, pairs[0].0)
                is None || !(wire_bytes(pairs[0].0) matches Some(b) && b.len() <= 32)
                ==> union_val(name, value, spec) is Err,
            _ => union_val(name, value, spec) is Err,
        },
{
}

/// Whether an entry is what a pair of an object is read as.
pub open spec fn is_entry_of(
    entry: (ValView, ValView),
    pair: (Seq<char>, JsonView),
    key_type: TypeView,
    value_type: TypeView,
    spec: SpecView,
) -> bool {
    &&& key_of(pair.0, key_type) == Ok::<ValView, Seq<char>>(entry.0)
    &&& val_of(pair.1, value_type, spec) == Ok::<ValView, Seq<char>>(entry.1)
}

/// Whether a pair of an object cannot be read.
pub open spec fn is_no_entry(
    pair: (Seq<char>, JsonView),
    key_type: TypeView,
    value_type: TypeView,
    spec: SpecView,
) -> bool {
    key_of(pair.0, key_type) is Err || val_of(pair.1, value_type, spec) is Err
}

proof fn lemma_entries(
    pairs: Seq<(Seq<char>, JsonView)>,
    kt: TypeView,
    vt: TypeView,
    spec: SpecView,
    entries: Seq<(ValView, ValView)>,
    n: int,
)
    requires
        0 <= n <= pairs.len(),
        entries.len() == pairs.len(),
        forall|i: int|
            0 <= i < pairs.len() ==> is_entry_of(#[trigger] entries[i], pairs[i], kt, vt, spec),
    ensures
        entries_upto(pairs, kt, vt, spec, n) == Ok::<Seq<(ValView, ValView)>, Seq<char>>(
            entries.take(n),
        ),
    decreases n,
{
    if n > 0 {
        lemma_entries(pairs, kt, vt, spec, entries, n - 1);
        assert(is_entry_of(entries[n - 1], pairs[n - 1], kt, vt, spec));
        assert(entries.take(n) =~= entries.take(n - 1).push(entries[n - 1]));
    } else {
        assert(entries.take(n) =~= Seq::empty());
    }
}

proof fn lemma_failed_entry(
    pairs: Seq<(Seq<char>, JsonView)>,
    kt: TypeView,
    vt: TypeView,
    spec: SpecView,
    i: int,
    n: int,
)
    requires
        0 <= i < n <= pairs.len(),
        is_no_entry(pairs[i], kt, vt, spec),
    ensures
        entries_upto(pairs, kt, vt, spec, n) is Err,
    decreases n,
{
    if i < n - 1 {
        lemma_failed_entry(pairs, kt, vt, spec, i, n - 1);
    }
}

/// Two keys of one type compare.
proof fn lemma_like_keys(a: Seq<char>, x: ValView, b: Seq<char>, y: ValView, kt: TypeView)
    requires
        key_of(a, kt) == Ok::<ValView, Seq<char>>(x),
        key_of(b, kt) == Ok::<ValView, Seq<char>>(y),
    ensures
        fits(x),
        same_key_type(x, y),
{
}

/// A map is read pair by pair: where each pair of the object is read as an entry, the
/// map has just these entries, in the order of their keys.
pub proof fn law_map_is_read_pair_by_pair(
    pairs: Seq<(Seq<char>, JsonView)>,
    kt: TypeView,
    vt: TypeView,
    spec: SpecView,
    entries: Seq<(ValView, ValView)>,
    key: ValView,
)
    requires
        JsonView::Object(pairs).at_key("__xdr"@) is None,
        entries.len() == pairs.len(),
        forall|i: int|
            0 <= i < pairs.len() ==> is_entry_of(#[trigger] entries[i], pairs[i], kt, vt, spec),
    ensures
        ({
            let r = val_of(
                JsonView::Object(pairs),
                TypeView::Mapping(Box::new(kt), Box::new(vt)),
                spec,
            );
            if pairs.len() > u32::MAX {
                r is Err
            } else {
                r matches Ok(ValView::Mapping(Some(map))) && {
                    &&& map.len() == pairs.len()
                    &&& in_key_order(map)
                    &&& map.filter(has_key(key)) == entries.filter(has_key(key))
                }
            }
        }),
{
    lemma_entries(pairs, kt, vt, spec, entries, pairs.len() as int);
    assert(entries.take(pairs.len() as int) =~= entries);
    assert forall|i: int, j: int|
        0 <= i < entries.len() && 0 <= j < entries.len() implies same_key_type(
        (#[trigger] entries[i]).0,
        (#[trigger] entries[j]).0,
    ) by {
        assert(is_entry_of(entries[i], pairs[i], kt, vt, spec));
        assert(is_entry_of(entries[j], pairs[j], kt, vt, spec));
        lemma_like_keys(pairs[i].0, entries[i].0, pairs[j].0, entries[j].0, kt);
    }
    assert forall|i: int| 0 <= i < entries.len() implies fits((#[trigger] entries[i]).0) by {
        assert(is_entry_of(entries[i], pairs[i], kt, vt, spec));
        lemma_like_keys(pairs[i].0, entries[i].0, pairs[i].0, entries[i].0, kt);
    }
    law_entries_are_sorted(entries, key);
}

/// A map with a pair that cannot be read is refused, and so is what is no object.
pub proof fn law_other_maps_are_refused(
    value: JsonView,
    kt: TypeView,
    vt: TypeView,
    spec: SpecView,
)
    requires
        value.at_key("__xdr"@) is None,
        value matches JsonView::Object(pairs) ==> exists|i: int|
            0 <= i < pairs.len() && is_no_entry(#[trigger] pairs[i], kt, vt, spec),
    ensures
        val_of(value, TypeView::Mapping(Box::new(kt), Box::new(vt)), spec) is Err,
{
    if let JsonView::Object(pairs) = value {
        let i = choose|i: int|
            0 <= i < pairs.len() && is_no_entry(#[trigger] pairs[i], kt, vt, spec);
        lemma_failed_entry(pairs, kt, vt, spec, i, pairs.len() as int);
    }
}

/// Whether an entry is what a field of a struct is read as: the symbol of its name,
/// and what the object has under that name, read as the field's type.
pub open spec fn is_field_of(
    entry: (ValView, ValView),
    object: JsonView,
    name: Seq<char>,
    type_: TypeView,
    spec: SpecView,
) -> bool {
    &&& wire_bytes(name) matches Some(b) && b.len() <= 32 && entry.0 == ValView::Symbol(b)
    &&& object.at_key(name) matches Some(x) && val_of(x, type_, spec) == Ok::<ValView, Seq<char>>(
        entry.1,
    )
}

/// Whether a field of a struct cannot be read: its name can be no symbol, it is
/// missing, or what is there cannot be read as its type.
pub open spec fn is_no_field(
    object: JsonView,
    name: Seq<char>,
    type_: TypeView,
    spec: SpecView,
) -> bool {
    ||| !(wire_bytes(name) matches Some(b) && b.len() <= 32)
    ||| object.at_key(name) is None
    ||| val_of(object.at_key(name)->0, type_, spec) is Err
}

proof fn lemma_fields(
    pairs: Seq<(Seq<char>, JsonView)>,
    s: StructView,
    spec: SpecView,
    entries: Seq<(ValView, ValView)>,
    n: int,
)
    requires
        0 <= n <= s.fields.len(),
        entries.len() == s.fields.len(),
        forall|i: int|
            0 <= i < entries.len() ==> is_field_of(
                #[trigger] entries[i],
                JsonView::Object(pairs),
                s.fields[i].name,
                s.fields[i].type_,
                spec,
            ),
    ensures
        fields_upto(pairs, s, spec, n) == Ok::<Seq<(ValView, ValView)>, Seq<char>>(
            entries.take(n),
        ),
    decreases n,
{
    if n > 0 {
        lemma_fields(pairs, s, spec, entries, n - 1);
        assert(is_field_of(
            entries[n - 1],
            JsonView::Object(pairs),
            s.fields[n - 1].name,
            s.fields[n - 1].type_,
            spec,
        ));
        let i = key_index(pairs, s.fields[n - 1].name);
        assert(0 <= i < pairs.len());
        assert(entries.take(n) =~= entries.take(n - 1).push(entries[n - 1]));
    } else {
        assert(entries.take(n) =~= Seq::empty());
    }
}

proof fn lemma_failed_field(
    pairs: Seq<(Seq<char>, JsonView)>,
    s: StructView,
    spec: SpecView,
    i: int,
    n: int,
)
    requires
        0 <= i < n <= s.fields.len(),
        is_no_field(JsonView::Object(pairs), s.fields[i].name, s.fields[i].type_, spec),
    ensures
        fields_upto(pairs, s, spec, n) is Err,
    decreases n,
{
    if i < n - 1 {
        lemma_failed_field(pairs, s, spec, i, n - 1);
    }
}

/// A struct whose fields have names is read field by field: where each field is read
/// as an entry, from what the object has under its name, the struct has just these
/// entries, in the order of their keys. What else is in the object does not matter.
pub proof fn law_struct_is_read_field_by_field(
    s: StructView,
    pairs: Seq<(Seq<char>, JsonView)>,
    spec: SpecView,
    entries: Seq<(ValView, ValView)>,
    key: ValView,
)
    requires
        s.fields.len() == 0 || exists|i: int|
            0 <= i < s.fields.len() && (#[trigger] s.fields[i]).name != decimal(i),
        entries.len() == s.fields.len(),
        forall|i: int|
            0 <= i < entries.len() ==> is_field_of(
                #[trigger] entries[i],
                JsonView::Object(pairs),
                s.fields[i].name,
                s.fields[i].type_,
                spec,
            ),
    ensures
        ({
            let r = struct_val(s, JsonView::Object(pairs), spec);
            if s.fields.len() > u32::MAX {
                r is Err
            } else {
                r matches Ok(ValView::Mapping(Some(map))) && {
                    &&& map.len() == s.fields.len()
                    &&& in_key_order(map)
                    &&& map.filter(has_key(key)) == entries.filter(has_key(key))
                }
            }
        }),
{
    lemma_fields(pairs, s, spec, entries, s.fields.len() as int);
    assert(entries.take(s.fields.len() as int) =~= entries);
    assert forall|i: int| 0 <= i < entries.len() implies (#[trigger] entries[i]).0 is Symbol && fits(
        entries[i].0,
    ) by {
        assert(is_field_of(
            entries[i],
            JsonView::Object(pairs),
            s.fields[i].name,
            s.fields[i].type_,
            spec,
        ));
    }
    assert forall|i: int, j: int|
        0 <= i < entries.len() && 0 <= j < entries.len() implies same_key_type(
        (#[trigger] entries[i]).0,
        (#[trigger] entries[j]).0,
    ) by {
        assert(entries[i].0 is Symbol && entries[j].0 is Symbol);
    }
    law_entries_are_sorted(entries, key);
}

/// A struct with a field that cannot be read is refused, and so is what is no object.
pub proof fn law_other_structs_are_refused(s: StructView, value: JsonView, spec: SpecView)
    requires
        s.fields.len() == 0 || exists|i: int|
            0 <= i < s.fields.len() && (#[trigger] s.fields[i]).name != decimal(i),
        value is Object ==> exists|i: int|
            0 <= i < s.fields.len() && is_no_field(
                value,
                (#[trigger] s.fields[i]).name,
                s.fields[i].type_,
                spec,
            ),
    ensures
        struct_val(s, value, spec) is Err,
{
    if let JsonView::Object(pairs) = value {
        let i = choose|i: int|
            0 <= i < s.fields.len() && is_no_field(
                value,
                (#[trigger] s.fields[i]).name,
                s.fields[i].type_,
                spec,
            );
        lemma_failed_field(pairs, s, spec, i, s.fields.len() as int);
    }
}

/// Whether a result is a given value.
pub open spec fn is_ok(r: Result<ValView, Seq<char>>, v: ValView) -> bool {
    r == Ok::<ValView, Seq<char>>(v)
}

/// A number is read as an integer type just where it is an integer in the range of the
/// type, and then gives that integer.
pub proof fn law_numbers_are_read_in_range(n: int, spec: SpecView)
    requires
        i64::MIN <= n <= u64::MAX,
    ensures
        ({
            let number = JsonView::Number(
                if n < 0 {
                    JsonNumber::Negative(n as i64)
                } else {
                    JsonNumber::Unsigned(n as u64)
                },
            );
            &&& if 0 <= n <= u32::MAX {
                is_ok(val_of(number, TypeView::U32, spec), ValView::U32(n as u32))
            } else {
                val_of(number, TypeView::U32, spec) is Err
            }
            &&& if i32::MIN <= n <= i32::MAX {
                is_ok(val_of(number, TypeView::I32, spec), ValView::I32(n as i32))
            } else {
                val_of(number, TypeView::I32, spec) is Err
            }
            &&& if 0 <= n {
                &&& is_ok(val_of(number, TypeView::U64, spec), ValView::U64(n as u64))
                &&& is_ok(val_of(number, TypeView::Timepoint, spec), ValView::Timepoint(n as u64))
                &&& is_ok(val_of(number, TypeView::Duration, spec), ValView::Duration(n as u64))
                &&& val_of(number, TypeView::U128, spec) matches Ok(ValView::U128(p)) && p.hi == 0
                    && p.lo == n
            } else {
                &&& val_of(number, TypeView::U64, spec) is Err
                &&& val_of(number, TypeView::Timepoint, spec) is Err
                &&& val_of(number, TypeView::Duration, spec) is Err
                &&& val_of(number, TypeView::U128, spec) is Err
            }
            &&& if n <= i64::MAX {
                is_ok(val_of(number, TypeView::I64, spec), ValView::I64(n as i64))
            } else {
                val_of(number, TypeView::I64, spec) is Err
            }
            &&& val_of(number, TypeView::I128, spec) matches Ok(ValView::I128(p)) && p.hi
                * 0x1_0000_0000_0000_0000 + p.lo == n
        }),
{
}

/// A string is read as an integer type just where it is the notation of an integer in
/// the range of the type, and then gives that integer.
pub proof fn law_decimals_are_read_in_range(s: Seq<char>, spec: SpecView)
    ensures
        ({
            let text = JsonView::String(s);
            &&& match int_value(s, 0, u64::MAX as int) {
                Ok(n) => {
                    &&& if n <= u32::MAX {
                        is_ok(val_of(text, TypeView::U32, spec), ValView::U32(n as u32))
                    } else {
                        val_of(text, TypeView::U32, spec) is Err
                    }
                    &&& is_ok(val_of(text, TypeView::U64, spec), ValView::U64(n as u64))
                    &&& is_ok(
                        val_of(text, TypeView::Timepoint, spec),
                        ValView::Timepoint(n as u64),
                    )
                    &&& is_ok(val_of(text, TypeView::Duration, spec), ValView::Duration(n as u64))
                },
                Err(_) => {
                    &&& val_of(text, TypeView::U32, spec) is Err
                    &&& val_of(text, TypeView::U64, spec) is Err
                    &&& val_of(text, TypeView::Timepoint, spec) is Err
                    &&& val_of(text, TypeView::Duration, spec) is Err
                },
            }
            &&& match int_value(s, i64::MIN as int, i64::MAX as int) {
                Ok(n) => {
                    &&& if i32::MIN <= n <= i32::MAX {
                        is_ok(val_of(text, TypeView::I32, spec), ValView::I32(n as i32))
                    } else {
                        val_of(text, TypeView::I32, spec) is Err
                    }
                    &&& is_ok(val_of(text, TypeView::I64, spec), ValView::I64(n as i64))
                },
                Err(_) => {
                    &&& val_of(text, TypeView::I32, spec) is Err
                    &&& val_of(text, TypeView::I64, spec) is Err
                },
            }
            &&& match int_value(s, 0, u128::MAX as int) {
                Ok(n) => val_of(text, TypeView::U128, spec) matches Ok(ValView::U128(p)) && p.hi
                    * 0x1_0000_0000_0000_0000 + p.lo == n,
                Err(_) => val_of(text, TypeView::U128, spec) is Err,
            }
            &&& match int_value(s, i128::MIN as int, i128::MAX as int) {
                Ok(n) => val_of(text, TypeView::I128, spec) matches Ok(ValView::I128(p)) && p.hi
                    * 0x1_0000_0000_0000_0000 + p.lo == n,
                Err(_) => val_of(text, TypeView::I128, spec) is Err,
            }
        }),
{
    law_read_integer_is_in_range(s, 0, u64::MAX as int);
    law_read_integer_is_in_range(s, i64::MIN as int, i64::MAX as int);
    law_read_integer_is_in_range(s, 0, u128::MAX as int);
    law_read_integer_is_in_range(s, i128::MIN as int, i128::MAX as int);
    if let Ok(n) = int_value(s, 0, u128::MAX as int) {
        crate::scval::law_u128_parts(n, crate::scval::u128_parts(n));
    }
    if let Ok(n) = int_value(s, i128::MIN as int, i128::MAX as int) {
        crate::scval::law_i128_parts(n, crate::scval::i128_parts(n));
    }
}

/// What is neither an integer nor a string is read as no integer type.
pub proof fn law_other_values_are_no_integers(value: JsonView, t: TypeView, spec: SpecView)
    requires
        value.at_key("__xdr"@) is None,
        !(value is String),
        value matches JsonView::Number(n) ==> n is Float,
        t is U32 || t is I32 || t is U64 || t is I64 || t is Timepoint || t is Duration || t is U128
            || t is I128,
    ensures
        val_of(value, t, spec) is Err,
{
}

/// A boolean is read as itself and nothing else is one; every JSON value stands for
/// the one value of the type without content.
pub proof fn law_booleans_are_read_as_they_are(b: bool, value: JsonView, spec: SpecView)
    requires
        value.at_key("__xdr"@) is None,
    ensures
        is_ok(val_of(JsonView::Bool(b), TypeView::Bool, spec), ValView::Bool(b)),
        !(value is Bool) ==> val_of(value, TypeView::Bool, spec) is Err,
        is_ok(val_of(value, TypeView::Void, spec), ValView::Void),
{
}

/// A string gives the bytes that it stands for, where it stands for some; a symbol has
/// at most 32 of them. Nothing but a string is a string or a symbol.
pub proof fn law_texts_are_read_as_their_bytes(s: Seq<char>, other: JsonView, spec: SpecView)
    requires
        other.at_key("__xdr"@) is None,
        !(other is String),
    ensures
        match wire_bytes(s) {
            Some(b) => {
                &&& is_ok(
                    val_of(JsonView::String(s), TypeView::String, spec),
                    ValView::String(b),
                )
                &&& if b.len() <= 32 {
                    is_ok(val_of(JsonView::String(s), TypeView::Symbol, spec), ValView::Symbol(b))
                } else {
                    val_of(JsonView::String(s), TypeView::Symbol, spec) is Err
                }
            },
            None => {
                &&& val_of(JsonView::String(s), TypeView::String, spec) is Err
                &&& val_of(JsonView::String(s), TypeView::Symbol, spec) is Err
            },
        },
        val_of(other, TypeView::String, spec) is Err,
        val_of(other, TypeView::Symbol, spec) is Err,
{
}

/// The strkey of an account gives the account, that of a contract the contract, and no
/// other value is an address.
pub proof fn law_addresses_are_strkeys(s: Seq<char>, other: JsonView, t: TypeView, spec: SpecView)
    requires
        t is Address || t is MuxedAddress,
        other.at_key("__xdr"@) is None,
        !(other is String),
    ensures
        match (account_of(s), contract_of(s)) {
            (Some(key), _) => is_ok(
                val_of(JsonView::String(s), t, spec),
                ValView::Address(AddressView::Account(key)),
            ),
            (None, Some(id)) => is_ok(
                val_of(JsonView::String(s), t, spec),
                ValView::Address(AddressView::Contract(id)),
            ),
            (None, None) => val_of(JsonView::String(s), t, spec) is Err,
        },
        val_of(other, t, spec) is Err,
{
}

/// Bytes are given in hexadecimal, with `0x` before the digits or without, or as an
/// array of integers below 256; bytes of a fixed number have to be that many.
pub proof fn law_bytes_are_read_as_given(
    digits: Seq<char>,
    items: Seq<JsonView>,
    bytes: Seq<u8>,
    n: u32,
    spec: SpecView,
)
    requires
        is_hex(digits),
        hex_bytes(digits).len() <= u32::MAX,
        bytes.len() <= u32::MAX,
        items.len() == bytes.len(),
        forall|i: int|
            0 <= i < items.len() ==> #[trigger] items[i] == JsonView::Number(
                JsonNumber::Unsigned(bytes[i] as u64),
            ),
    ensures
        is_ok(
            val_of(JsonView::String(digits), TypeView::Bytes, spec),
            ValView::Bytes(hex_bytes(digits)),
        ),
        is_ok(
            val_of(JsonView::String("0x"@ + digits), TypeView::Bytes, spec),
            ValView::Bytes(hex_bytes(digits)),
        ),
        is_ok(val_of(JsonView::Array(items), TypeView::Bytes, spec), ValView::Bytes(bytes)),
        if hex_bytes(digits).len() == n {
            is_ok(
                val_of(JsonView::String(digits), TypeView::BytesN(n), spec),
                ValView::Bytes(hex_bytes(digits)),
            )
        } else {
            val_of(JsonView::String(digits), TypeView::BytesN(n), spec) is Err
        },
        if bytes.len() == n {
            is_ok(val_of(JsonView::Array(items), TypeView::BytesN(n), spec), ValView::Bytes(bytes))
        } else {
            val_of(JsonView::Array(items), TypeView::BytesN(n), spec) is Err
        },
{
    crate::scval_laws::law_bytes_notations(digits, bytes);
    assert(items =~= Seq::new(
        bytes.len(),
        |i: int| JsonView::Number(JsonNumber::Unsigned(bytes[i] as u64)),
    ));
}

/// What is neither hexadecimal nor an array of integers below 256 is read as no bytes.
pub proof fn law_other_values_are_no_bytes(value: JsonView, n: u32, spec: SpecView)
    requires
        value.at_key("__xdr"@) is None,
        match value {
            JsonView::String(s) => !is_hex(s) && !(s.len() >= 2 && s[0] == '0' && s[1] == 'x'
                && is_hex(s.skip(2))),
            JsonView::Array(items) => exists|i: int|
                0 <= i < items.len() && !((#[trigger] items[i]) matches JsonView::Number(
                    JsonNumber::Unsigned(b),
                ) && b <= 255),
            _ => true,
        },
    ensures
        val_of(value, TypeView::Bytes, spec) is Err,
        val_of(value, TypeView::BytesN(n), spec) is Err,
{
    if let JsonView::Array(items) = value {
        let i = choose|i: int|
            0 <= i < items.len() && !((#[trigger] items[i]) matches JsonView::Number(
                JsonNumber::Unsigned(b),
            ) && b <= 255);
        assert(!is_byte(items[i]));
    }
}

/// Values of these types, and integers of 256 bits, are given in the form of the
/// network alone: under the key `__xdr`. What is there decides, whatever the type.
pub proof fn law_xdr_decides(value: JsonView, t: TypeView, spec: SpecView)
    ensures
        match value.at_key("__xdr"@) {
            Some(x) => match val_of_json(canonical(x)) {
                Ok(v) => is_ok(val_of(value, t, spec), v),
                Err(_) => val_of(value, t, spec) is Err,
            },
            None => t is Val || t is Error || t is U256 || t is I256 || t is Result ==> val_of(
                value,
                t,
                spec,
            ) is Err,
        },
{
}

/// A type that the contract defines is a struct of its name if there is one, otherwise
/// a union, otherwise an enum, otherwise an enum of errors; a name without any of
/// these is refused.
pub proof fn law_defined_types_go_by_their_name(name: Seq<u8>, value: JsonView, spec: SpecView)
    requires
        value.at_key("__xdr"@) is None,
    ensures
        ({
            let r = val_of(value, TypeView::Udt(name), spec);
            let text = lossy_text(name);
            match spec.find_struct(text) {
                Some(s) => r == struct_val(s, value, spec),
                None => match spec.find_union(text) {
                    Some(_) => r == union_val(text, value, spec),
                    None => match spec.find_enum(text) {
                        Some(e) => r == enum_val(e, value),
                        None => match spec.find_error_enum(text) {
                            Some(e) => r == error_enum_val(e, value),
                            None => r is Err,
                        },
                    },
                },
            }
        }),
{
    lemma_defined_type(name, value, spec);
    lemma_definition(lossy_text(name), value, spec);
}

proof fn lemma_defined_type(name: Seq<u8>, value: JsonView, spec: SpecView)
    requires
        value.at_key("__xdr"@) is None,
    ensures
        val_of(value, TypeView::Udt(name), spec) == udt_val(lossy_text(name), value, spec),
{
}

proof fn lemma_definition(name: Seq<char>, value: JsonView, spec: SpecView)
    ensures
        udt_val(name, value, spec) == match spec.find_struct(name) {
            Some(s) => struct_val(s, value, spec),
            None => match spec.find_union(name) {
                Some(_) => union_val(name, value, spec),
                None => match spec.find_enum(name) {
                    Some(e) => enum_val(e, value),
                    None => match spec.find_error_enum(name) {
                        Some(e) => error_enum_val(e, value),
                        None => udt_val(name, value, spec),
                    },
                },
            },
        },
        spec.find_struct(name) is None && spec.find_union(name) is None && spec.find_enum(name)
            is None && spec.find_error_enum(name) is None ==> udt_val(name, value, spec) is Err,
{
}

/// Whether a place is that of the first case of a name.
pub open spec fn is_first_case(e: EnumView, name: Seq<char>, i: int) -> bool {
    &&& 0 <= i < e.cases.len()
    &&& e.cases[i].name == name
    &&& forall|j: int| 0 <= j < i ==> (#[trigger] e.cases[j]).name != name
}

/// A value of an enum is given by the name of a case, which gives the case's number,
/// or by the number of a case; other names and numbers, and other values, are refused.
/// In an enum of errors every number of 32 bits is one.
pub proof fn law_enums_are_read_by_their_cases(e: EnumView, value: JsonView, i: int)
    requires
        value matches JsonView::String(name) ==> is_first_case(e, name, i) || (i == e.cases.len()
            && forall|j: int| 0 <= j < i ==> (#[trigger] e.cases[j]).name != name),
    ensures
        match value {
            JsonView::String(name) => if i < e.cases.len() {
                &&& is_ok(enum_val(e, value), ValView::U32(e.cases[i].value))
                &&& is_ok(error_enum_val(e, value), ValView::U32(e.cases[i].value))
            } else {
                enum_val(e, value) is Err && error_enum_val(e, value) is Err
            },
            JsonView::Number(JsonNumber::Unsigned(n)) => {
                &&& if exists|j: int|
                    0 <= j < e.cases.len() && (#[trigger] e.cases[j]).value == n {
                    is_ok(enum_val(e, value), ValView::U32(n as u32))
                } else {
                    enum_val(e, value) is Err
                }
                &&& if n <= u32::MAX {
                    is_ok(error_enum_val(e, value), ValView::U32(n as u32))
                } else {
                    error_enum_val(e, value) is Err
                }
            },
            _ => enum_val(e, value) is Err && error_enum_val(e, value) is Err,
        },
{
    if let JsonView::String(name) = value {
        let names = crate::spec::enum_case_names(e.cases);
        let k = crate::interface::name_index(names, name);
        crate::interface::lemma_name_index(names, name, 0);
        assert(forall|j: int| 0 <= j < names.len() ==> #[trigger] names[j] == e.cases[j].name);
        if i < e.cases.len() {
            assert(names[i] == name);
            assert(k <= i);
            if k < i {
                assert(e.cases[k].name == names[k]);
            }
        } else if k < names.len() {
            assert(e.cases[k].name == names[k]);
        }
    }
}

/// The keys of a map are given as texts: a symbol and a string by their texts, an
/// address by its strkey, a boolean by its word, and an integer by its notation. For
/// keys of other types there is no notation.
pub proof fn law_keys_are_read_from_texts(key: Seq<char>)
    ensures
        match wire_bytes(key) {
            Some(b) => {
                &&& is_ok(key_of(key, TypeView::String), ValView::String(b))
                &&& b.len() <= 32 ==> is_ok(key_of(key, TypeView::Symbol), ValView::Symbol(b))
                &&& b.len() > 32 ==> key_of(key, TypeView::Symbol) is Err
            },
            None => key_of(key, TypeView::String) is Err && key_of(key, TypeView::Symbol) is Err,
        },
        match (account_of(key), contract_of(key)) {
            (Some(k), _) => {
                &&& is_ok(
                    key_of(key, TypeView::Address),
                    ValView::Address(AddressView::Account(k)),
                )
                &&& is_ok(
                    key_of(key, TypeView::MuxedAddress),
                    ValView::Address(AddressView::Account(k)),
                )
            },
            (None, Some(id)) => {
                &&& is_ok(
                    key_of(key, TypeView::Address),
                    ValView::Address(AddressView::Contract(id)),
                )
                &&& is_ok(
                    key_of(key, TypeView::MuxedAddress),
                    ValView::Address(AddressView::Contract(id)),
                )
            },
            (None, None) => key_of(key, TypeView::Address) is Err && key_of(
                key,
                TypeView::MuxedAddress,
            ) is Err,
        },
        is_ok(key_of("true"@, TypeView::Bool), ValView::Bool(true)),
        is_ok(key_of("false"@, TypeView::Bool), ValView::Bool(false)),
        key != "true"@ && key != "false"@ ==> key_of(key, TypeView::Bool) is Err,
        match int_value(key, 0, u32::MAX as int) {
            Ok(n) => is_ok(key_of(key, TypeView::U32), ValView::U32(n as u32)),
            Err(_) => key_of(key, TypeView::U32) is Err,
        },
        match int_value(key, i32::MIN as int, i32::MAX as int) {
            Ok(n) => is_ok(key_of(key, TypeView::I32), ValView::I32(n as i32)),
            Err(_) => key_of(key, TypeView::I32) is Err,
        },
        match int_value(key, 0, u64::MAX as int) {
            Ok(n) => is_ok(key_of(key, TypeView::U64), ValView::U64(n as u64)),
            Err(_) => key_of(key, TypeView::U64) is Err,
        },
        match int_value(key, i64::MIN as int, i64::MAX as int) {
            Ok(n) => is_ok(key_of(key, TypeView::I64), ValView::I64(n as i64)),
            Err(_) => key_of(key, TypeView::I64) is Err,
        },
{
    reveal_strlit("true");
    reveal_strlit("false");
    assert("true"@.len() == 4 && "false"@.len() == 5);
}

/// Keys of other types than these have no notation as texts.
pub proof fn law_other_keys_have_no_texts(key: Seq<char>, t: TypeView)
    requires
        !(t is Symbol || t is String || t is Address || t is MuxedAddress || t is Bool || t is U32
            || t is I32 || t is U64 || t is I64),
    ensures
        key_of(key, t) is Err,
{
}

/// Digits in a range of places.
pub open spec fn are_digits(s: Seq<char>, from: int) -> bool {
    forall|i: int| from <= i < s.len() ==> '0' <= #[trigger] s[i] <= '9'
}

proof fn lemma_digits(s: Seq<char>, negative: bool, lo: int, hi: int)
    requires
        lo <= 0 <= hi,
    ensures
        digits_value(s, negative, lo, hi) matches Ok(n) ==> {
            &&& lo <= n <= hi
            &&& are_digits(s, 0)
            &&& if negative {
                n <= 0
            } else {
                n >= 0
            }
        },
    decreases s.len(),
{
    if s.len() > 0 {
        lemma_digits(s.drop_last(), negative, lo, hi);
        if digits_value(s, negative, lo, hi) is Ok {
            assert forall|i: int| 0 <= i < s.len() implies '0' <= #[trigger] s[i] <= '9' by {
                if i < s.len() - 1 {
                    assert(s.drop_last()[i] == s[i]);
                }
            }
        }
    }
}

/// A text that is read as an integer in a range is made of digits behind at most one
/// sign, and the integer is in the range; it is below zero only behind a minus sign.
pub proof fn law_read_integer_is_in_range(s: Seq<char>, lo: int, hi: int)
    requires
        lo <= 0 <= hi,
    ensures
        int_value(s, lo, hi) matches Ok(n) ==> {
            &&& lo <= n <= hi
            &&& s.len() > 0
            &&& are_digits(s, 1)
            &&& '0' <= s[0] <= '9' || (s.len() > 1 && (s[0] == '+' || s[0] == '-'))
            &&& n < 0 ==> s[0] == '-'
            &&& s[0] == '-' ==> n <= 0 && lo < 0
        },
{
    if s.len() > 0 {
        lemma_digits(s, false, lo, hi);
        lemma_digits(s.skip(1), false, lo, hi);
        lemma_digits(s.skip(1), true, lo, hi);
        assert forall|i: int| 1 <= i < s.len() implies s.skip(1)[i - 1] == #[trigger] s[i] by {}
        if int_value(s, lo, hi) is Ok {
            assert forall|i: int| 1 <= i < s.len() implies '0' <= #[trigger] s[i] <= '9' by {
                assert(s.skip(1)[i - 1] == s[i]);
            }
        }
    }
}

proof fn lemma_bytes_order(p: Seq<u8>, x: u8, a: Seq<u8>, y: u8, b: Seq<u8>)
    requires
        x < y,
    ensures
        bytes_lt(p + seq![x] + a, p + seq![y] + b),
        bytes_lt(p, p + seq![x] + a),
    decreases p.len(),
{
    let l = byte_codes(p + seq![x] + a);
    let r = byte_codes(p + seq![y] + b);
    if p.len() > 0 {
        let q = p.skip(1);
        lemma_bytes_order(q, x, a, y, b);
        assert(l[0] == p[0] && r[0] == p[0] && byte_codes(p)[0] == p[0]);
        assert(l.skip(1) =~= byte_codes(q + seq![x] + a));
        assert(r.skip(1) =~= byte_codes(q + seq![y] + b));
        assert(byte_codes(p).skip(1) =~= byte_codes(q));
    } else {
        assert(l[0] == x && r[0] == y);
    }
}

/// Keys that are integers stand in the order of their values, `false` stands before
/// `true`, texts stand in the order of the first byte in which they differ, a shorter
/// one before those that it begins, and accounts stand before contracts.
pub proof fn law_order_of_keys(m: int, n: int, p: Seq<u8>, x: u8, a: Seq<u8>, y: u8, b: Seq<u8>)
    requires
        x < y,
    ensures
        0 <= m <= u32::MAX && 0 <= n <= u32::MAX ==> (key_lt(
            ValView::U32(m as u32),
            ValView::U32(n as u32),
        ) <==> m < n),
        i32::MIN <= m <= i32::MAX && i32::MIN <= n <= i32::MAX ==> (key_lt(
            ValView::I32(m as i32),
            ValView::I32(n as i32),
        ) <==> m < n),
        0 <= m <= u64::MAX && 0 <= n <= u64::MAX ==> (key_lt(
            ValView::U64(m as u64),
            ValView::U64(n as u64),
        ) <==> m < n),
        i64::MIN <= m <= i64::MAX && i64::MIN <= n <= i64::MAX ==> (key_lt(
            ValView::I64(m as i64),
            ValView::I64(n as i64),
        ) <==> m < n),
        key_lt(ValView::Bool(false), ValView::Bool(true)),
        key_lt(ValView::Symbol(p + seq![x] + a), ValView::Symbol(p + seq![y] + b)),
        key_lt(ValView::Symbol(p), ValView::Symbol(p + seq![x] + a)),
        key_lt(ValView::String(p + seq![x] + a), ValView::String(p + seq![y] + b)),
        key_lt(ValView::String(p), ValView::String(p + seq![x] + a)),
        key_lt(
            ValView::Address(AddressView::Account(p + seq![x] + a)),
            ValView::Address(AddressView::Account(p + seq![y] + b)),
        ),
        key_lt(
            ValView::Address(AddressView::Contract(p + seq![x] + a)),
            ValView::Address(AddressView::Contract(p + seq![y] + b)),
        ),
        key_lt(
            ValView::Address(AddressView::Account(a)),
            ValView::Address(AddressView::Contract(b)),
        ),
{
    lemma_bytes_order(p, x, a, y, b);
}

/// In a text a backslash stands with the letter behind it for one byte, or with two
/// hexadecimal digits behind an `x`; a backslash with anything else behind it makes the
/// text stand for nothing.
pub proof fn law_escapes(rest: Seq<char>, bytes: Seq<u8>, c: char, d: char)
    requires
        unescaped(rest) == Some(bytes),
    ensures
        unescaped(seq!['\\', 'n'] + rest) == Some(seq![10u8] + bytes),
        unescaped(seq!['\\', 't'] + rest) == Some(seq![9u8] + bytes),
        unescaped(seq!['\\', 'r'] + rest) == Some(seq![13u8] + bytes),
        unescaped(seq!['\\', '0'] + rest) == Some(seq![0u8] + bytes),
        unescaped(seq!['\\', '\\'] + rest) == Some(seq![92u8] + bytes),
        hex_value(c) is Some && hex_value(d) is Some ==> unescaped(
            seq!['\\', 'x', c, d] + rest,
        ) == Some(seq![(16 * hex_value(c)->0 + hex_value(d)->0) as u8] + bytes),
        c != 'n' && c != 't' && c != 'r' && c != '0' && c != '\\' && c != 'x' ==> unescaped(
            seq!['\\', c] + rest,
        ) is None,
{
    assert((seq!['\\', 'n'] + rest).skip(2) =~= rest);
    assert((seq!['\\', 't'] + rest).skip(2) =~= rest);
    assert((seq!['\\', 'r'] + rest).skip(2) =~= rest);
    assert((seq!['\\', '0'] + rest).skip(2) =~= rest);
    assert((seq!['\\', '\\'] + rest).skip(2) =~= rest);
    assert((seq!['\\', 'x', c, d] + rest).skip(4) =~= rest);
    let s = seq!['\\', c] + rest;
    assert(s[0] == '\\' && s[1] == c);
    let h = seq!['\\', 'x', c, d] + rest;
    assert(h[0] == '\\' && h[1] == 'x' && h[2] == c && h[3] == d);
}

} // verus!
