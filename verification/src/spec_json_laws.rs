//! What the JSON of an interface's types tells.

use vstd::prelude::*;

use crate::encoding::lossy_text;
use crate::interface::TypeView;
use crate::json::int_number;
use crate::json::object_view;
use crate::json::JsonView;
use crate::json_laws::last_at;
use crate::json_laws::law_object_lookup;
use crate::render::object1;
use crate::spec_json::kind1;
use crate::spec_json::type_json;
use crate::spec_json::type_jsons;
use crate::xdr_types::lemma_type_parts;

verus! {

/// Whether the names of user-defined types in a type are UTF-8.
pub open spec fn has_text_names(t: TypeView) -> bool
    decreases t,
{
    match t {
        TypeView::Option(v) => has_text_names(*v),
        TypeView::Result(o, e) => has_text_names(*o) && has_text_names(*e),
        TypeView::Vec(v) => has_text_names(*v),
        TypeView::Mapping(k, v) => has_text_names(*k) && has_text_names(*v),
        TypeView::Tuple(items) => forall|i: int|
            0 <= i < items.len() ==> has_text_names(#[trigger] items[i]),
        TypeView::Udt(name) => vstd::utf8::valid_utf8(name),
        _ => true,
    }
}

/// The word for the kind of a type.
pub open spec fn kind_word(t: TypeView) -> Seq<char> {
    match t {
        TypeView::Val => "val"@,
        TypeView::Bool => "bool"@,
        TypeView::Void => "void"@,
        TypeView::Error => "error"@,
        TypeView::U32 => "u32"@,
        TypeView::I32 => "i32"@,
        TypeView::U64 => "u64"@,
        TypeView::I64 => "i64"@,
        TypeView::Timepoint => "timepoint"@,
        TypeView::Duration => "duration"@,
        TypeView::U128 => "u128"@,
        TypeView::I128 => "i128"@,
        TypeView::U256 => "u256"@,
        TypeView::I256 => "i256"@,
        TypeView::Bytes => "bytes"@,
        TypeView::String => "string"@,
        TypeView::Symbol => "symbol"@,
        TypeView::Address => "address"@,
        TypeView::MuxedAddress => "muxed_address"@,
        TypeView::Option(_) => "option"@,
        TypeView::Result(_, _) => "result"@,
        TypeView::Vec(_) => "vec"@,
        TypeView::Mapping(_, _) => "map"@,
        TypeView::Tuple(_) => "tuple"@,
        TypeView::BytesN(_) => "bytesN"@,
        TypeView::Udt(_) => "udt"@,
    }
}

/// The length and the first two letters of the word for a kind, by which the words
/// differ.
spec fn word_shape(t: TypeView) -> (nat, char, char) {
    match t {
        TypeView::Val => (3, 'v', 'a'),
        TypeView::Bool => (4, 'b', 'o'),
        TypeView::Void => (4, 'v', 'o'),
        TypeView::Error => (5, 'e', 'r'),
        TypeView::U32 => (3, 'u', '3'),
        TypeView::I32 => (3, 'i', '3'),
        TypeView::U64 => (3, 'u', '6'),
        TypeView::I64 => (3, 'i', '6'),
        TypeView::Timepoint => (9, 't', 'i'),
        TypeView::Duration => (8, 'd', 'u'),
        TypeView::U128 => (4, 'u', '1'),
        TypeView::I128 => (4, 'i', '1'),
        TypeView::U256 => (4, 'u', '2'),
        TypeView::I256 => (4, 'i', '2'),
        TypeView::Bytes => (5, 'b', 'y'),
        TypeView::String => (6, 's', 't'),
        TypeView::Symbol => (6, 's', 'y'),
        TypeView::Address => (7, 'a', 'd'),
        TypeView::MuxedAddress => (13, 'm', 'u'),
        TypeView::Option(_) => (6, 'o', 'p'),
        TypeView::Result(_, _) => (6, 'r', 'e'),
        TypeView::Vec(_) => (3, 'v', 'e'),
        TypeView::Mapping(_, _) => (3, 'm', 'a'),
        TypeView::Tuple(_) => (5, 't', 'u'),
        TypeView::BytesN(_) => (6, 'b', 'y'),
        TypeView::Udt(_) => (3, 'u', 'd'),
    }
}

proof fn lemma_word_shape(t: TypeView)
    ensures
        word_shape(t) == (kind_word(t).len(), kind_word(t)[0], kind_word(t)[1]),
{
    reveal_strlit("val");
    reveal_strlit("bool");
    reveal_strlit("void");
    reveal_strlit("error");
    reveal_strlit("u32");
    reveal_strlit("i32");
    reveal_strlit("u64");
    reveal_strlit("i64");
    reveal_strlit("timepoint");
    reveal_strlit("duration");
    reveal_strlit("u128");
    reveal_strlit("i128");
    reveal_strlit("u256");
    reveal_strlit("i256");
    reveal_strlit("bytes");
    reveal_strlit("string");
    reveal_strlit("symbol");
    reveal_strlit("address");
    reveal_strlit("muxed_address");
    reveal_strlit("option");
    reveal_strlit("result");
    reveal_strlit("vec");
    reveal_strlit("map");
    reveal_strlit("tuple");
    reveal_strlit("bytesN");
    reveal_strlit("udt");
}

/// An object of one pair, and what says what a type is made of, hold what they are
/// given.
proof fn lemma_kind1(kind: Seq<char>, key: Seq<char>, value: JsonView)
    requires
        key != "kind"@,
    ensures
        object1("kind"@, JsonView::String(kind)).at_key("kind"@) == Some(JsonView::String(kind)),
        kind1(kind, key, value).at_key("kind"@) == Some(JsonView::String(kind)),
        kind1(kind, key, value).at_key(key) == Some(value),
{
    reveal_with_fuel(last_at, 3);
    law_object_lookup(seq![("kind"@, JsonView::String(kind))], "kind"@);
    let given = seq![("kind"@, JsonView::String(kind)), (key, value)];
    law_object_lookup(given, "kind"@);
    law_object_lookup(given, key);
}

proof fn lemma_kind2(kind: Seq<char>, k1: Seq<char>, v1: JsonView, k2: Seq<char>, v2: JsonView)
    requires
        k1 != "kind"@,
        k2 != "kind"@,
        k1 != k2,
    ensures
        ({
            let o = object_view(seq![("kind"@, JsonView::String(kind)), (k1, v1), (k2, v2)]);
            &&& o.at_key("kind"@) == Some(JsonView::String(kind))
            &&& o.at_key(k1) == Some(v1)
            &&& o.at_key(k2) == Some(v2)
        }),
{
    reveal_with_fuel(last_at, 4);
    let given = seq![("kind"@, JsonView::String(kind)), (k1, v1), (k2, v2)];
    law_object_lookup(given, "kind"@);
    law_object_lookup(given, k1);
    law_object_lookup(given, k2);
}

/// What the JSON of a type holds of its parts.
spec fn tells_parts(t: TypeView) -> bool {
    let j = type_json(t);
    match t {
        TypeView::Option(v) => j.at_key("value"@) == Some(type_json(*v)),
        TypeView::Result(o, e) => j.at_key("ok"@) == Some(type_json(*o)) && j.at_key("error"@)
            == Some(type_json(*e)),
        TypeView::Vec(v) => j.at_key("element"@) == Some(type_json(*v)),
        TypeView::Mapping(k, v) => j.at_key("key"@) == Some(type_json(*k)) && j.at_key("value"@)
            == Some(type_json(*v)),
        TypeView::Tuple(items) => j.at_key("elements"@) == Some(
            JsonView::Array(type_jsons(items)),
        ),
        TypeView::BytesN(n) => j.at_key("n"@) == Some(JsonView::Number(int_number(n as int))),
        TypeView::Udt(name) => j.at_key("name"@) == Some(JsonView::String(lossy_text(name))),
        _ => true,
    }
}

proof fn lemma_keys()
    ensures
        "value"@ != "kind"@,
        "ok"@ != "kind"@,
        "error"@ != "kind"@,
        "ok"@ != "error"@,
        "element"@ != "kind"@,
        "key"@ != "kind"@,
        "key"@ != "value"@,
        "elements"@ != "kind"@,
        "n"@ != "kind"@,
        "name"@ != "kind"@,
{
    reveal_strlit("kind");
    reveal_strlit("value");
    reveal_strlit("ok");
    reveal_strlit("error");
    reveal_strlit("element");
    reveal_strlit("key");
    reveal_strlit("elements");
    reveal_strlit("n");
    reveal_strlit("name");
    assert("kind"@.len() == 4 && "value"@.len() == 5 && "ok"@.len() == 2 && "error"@.len() == 5);
    assert("element"@.len() == 7 && "key"@.len() == 3 && "elements"@.len() == 8);
    assert("n"@.len() == 1 && "name"@.len() == 4 && "name"@[0] != "kind"@[0]);
}

/// The JSON of a type is an object that tells its kind and its parts.
proof fn lemma_type_told(t: TypeView)
    ensures
        type_json(t) is Object,
        type_json(t).at_key("kind"@) == Some(JsonView::String(kind_word(t))),
        tells_parts(t),
{
    lemma_keys();
    match t {
        TypeView::Option(v) => lemma_kind1("option"@, "value"@, type_json(*v)),
        TypeView::Result(o, e) => lemma_kind2(
            "result"@,
            "ok"@,
            type_json(*o),
            "error"@,
            type_json(*e),
        ),
        TypeView::Vec(v) => lemma_kind1("vec"@, "element"@, type_json(*v)),
        TypeView::Mapping(k, v) => lemma_kind2(
            "map"@,
            "key"@,
            type_json(*k),
            "value"@,
            type_json(*v),
        ),
        TypeView::Tuple(items) => lemma_kind1(
            "tuple"@,
            "elements"@,
            JsonView::Array(type_jsons(items)),
        ),
        TypeView::BytesN(n) => lemma_kind1(
            "bytesN"@,
            "n"@,
            JsonView::Number(int_number(n as int)),
        ),
        TypeView::Udt(name) => lemma_kind1("udt"@, "name"@, JsonView::String(lossy_text(name))),
        _ => lemma_kind1(kind_word(t), "n"@, JsonView::Null),
    }
}

/// The JSON of a type is an object with a word for its kind, and no two types have
/// the same JSON, if the names of user-defined types in them are UTF-8.
pub proof fn law_types_render_apart(a: TypeView, b: TypeView)
    requires
        has_text_names(a),
        has_text_names(b),
    ensures
        type_json(a) is Object,
        type_json(a).at_key("kind"@) == Some(JsonView::String(kind_word(a))),
        type_json(a) == type_json(b) <==> a == b,
    decreases a,
{
    lemma_type_told(a);
    lemma_type_told(b);
    if type_json(a) == type_json(b) {
        lemma_word_shape(a);
        lemma_word_shape(b);
        assert(word_shape(a) == word_shape(b));
        lemma_type_parts(a);
        match (a, b) {
            (TypeView::Option(v), TypeView::Option(w)) => law_types_render_apart(*v, *w),
            (TypeView::Result(o, e), TypeView::Result(p, f)) => {
                law_types_render_apart(*o, *p);
                law_types_render_apart(*e, *f);
            },
            (TypeView::Vec(v), TypeView::Vec(w)) => law_types_render_apart(*v, *w),
            (TypeView::Mapping(k, v), TypeView::Mapping(l, w)) => {
                law_types_render_apart(*k, *l);
                law_types_render_apart(*v, *w);
            },
            (TypeView::Tuple(v), TypeView::Tuple(w)) => {
                assert(type_jsons(v) == type_jsons(w));
                assert(decreases_to!(a => a->Tuple_0));
                assert(v.len() == type_jsons(v).len() && w.len() == type_jsons(w).len());
                assert forall|i: int| 0 <= i < v.len() implies v[i] == w[i] by {
                    assert(type_jsons(v)[i] == type_json(v[i]));
                    assert(type_jsons(w)[i] == type_json(w[i]));
                    assert(decreases_to!(v => v[i]));
                    law_types_render_apart(v[i], w[i]);
                }
                assert(v =~= w);
            },
            (TypeView::Udt(v), TypeView::Udt(w)) => {
                vstd::utf8::decode_utf8_encode_utf8(v);
                vstd::utf8::decode_utf8_encode_utf8(w);
            },
            _ => {},
        }
    }
}

} // verus!
