//! What the listing of an interface shows: everything that the interface has, in its
//! order, each under its key.

use vstd::prelude::*;

use crate::encoding::lossy_text;
use crate::handlers::annotated;
use crate::handlers::annotated_functions;
use crate::interface::EnumCaseView;
use crate::interface::EnumView;
use crate::interface::FieldView;
use crate::interface::FunctionView;
use crate::interface::StructView;
use crate::interface::TypeView;
use crate::interface::UnionCaseView;
use crate::interface::UnionView;
use crate::json::object_view;
use crate::json::JsonNumber;
use crate::json::JsonView;
use crate::json_laws::law_object_lookup;
use crate::json_laws::lemma_pair_found;
use crate::json_laws::lemma_with_key;
use crate::spec::SpecView;
use crate::spec_json::case_kind;
use crate::spec_json::case_types_json;
use crate::spec_json::enum_case_json;
use crate::spec_json::enum_json;
use crate::spec_json::enum_jsons;
use crate::spec_json::field_json;
use crate::spec_json::fields_json;
use crate::spec_json::function_json;
use crate::spec_json::function_jsons;
use crate::spec_json::spec_json;
use crate::spec_json::struct_json;
use crate::spec_json::struct_jsons;
use crate::spec_json::type_json;
use crate::spec_json::union_case_json;
use crate::spec_json::union_json;
use crate::spec_json::union_jsons;
use crate::table::Table;

verus! {

/// Whether an object has a text under a key.
pub open spec fn says(j: JsonView, key: Seq<char>, text: Seq<char>) -> bool {
    j.at_key(key) == Some(JsonView::String(text))
}

/// The keys of what has a name and a documentation differ from each other.
proof fn lemma_first_keys()
    ensures
        "name"@ != "doc"@,
        "name"@ != "type"@,
        "doc"@ != "type"@,
        "name"@ != "inputs"@,
        "doc"@ != "inputs"@,
        "name"@ != "output"@,
        "doc"@ != "output"@,
        "inputs"@ != "output"@,
        "name"@ != "fields"@,
        "doc"@ != "fields"@,
        "name"@ != "cases"@,
        "doc"@ != "cases"@,
        "name"@ != "value"@,
        "doc"@ != "value"@,
        "name"@ != "kind"@,
        "doc"@ != "kind"@,
        "name"@ != "types"@,
        "doc"@ != "types"@,
        "kind"@ != "types"@,
        "http_method"@ != "name"@,
        "http_method"@ != "doc"@,
        "http_method"@ != "inputs"@,
        "http_method"@ != "output"@,
{
    reveal_strlit("name");
    reveal_strlit("doc");
    reveal_strlit("type");
    reveal_strlit("inputs");
    reveal_strlit("output");
    reveal_strlit("fields");
    reveal_strlit("cases");
    reveal_strlit("value");
    reveal_strlit("kind");
    reveal_strlit("types");
    reveal_strlit("http_method");
    assert("name"@.len() == 4 && "doc"@.len() == 3 && "type"@.len() == 4);
    assert("inputs"@.len() == 6 && "output"@.len() == 6 && "fields"@.len() == 6);
    assert("cases"@.len() == 5 && "value"@.len() == 5 && "kind"@.len() == 4);
    assert("types"@.len() == 5 && "http_method"@.len() == 11);
    assert("name"@[0] == 'n' && "type"@[0] == 't' && "kind"@[0] == 'k');
    assert("inputs"@[0] == 'i' && "output"@[0] == 'o');
}

/// Whether a JSON value shows a parameter or a field: its name, its documentation and
/// its type.
pub open spec fn shows_field(j: JsonView, f: FieldView) -> bool {
    &&& says(j, "name"@, f.name)
    &&& says(j, "doc"@, f.doc)
    &&& j.at_key("type"@) == Some(type_json(f.type_))
}

/// Whether a JSON value shows parameters or fields: all of them, in their order.
pub open spec fn shows_fields(j: Option<JsonView>, fields: Seq<FieldView>) -> bool {
    match j {
        Some(JsonView::Array(items)) => items.len() == fields.len() && forall|i: int|
            0 <= i < fields.len() ==> shows_field(#[trigger] items[i], fields[i]),
        _ => false,
    }
}

proof fn lemma_field(f: FieldView)
    ensures
        shows_field(field_json(f), f),
{
    let given = seq![
        ("name"@, JsonView::String(f.name)),
        ("doc"@, JsonView::String(f.doc)),
        ("type"@, type_json(f.type_)),
    ];
    assert(field_json(f) == object_view(given));
    lemma_first_keys();
    lemma_pair_found(given, 0);
    lemma_pair_found(given, 1);
    lemma_pair_found(given, 2);
}

proof fn lemma_fields(fields: Seq<FieldView>)
    ensures
        shows_fields(Some(fields_json(fields)), fields),
{
    let items = fields_json(fields)->Array_0;
    assert forall|i: int| 0 <= i < fields.len() implies shows_field(#[trigger] items[i], fields[i]) by {
        lemma_field(fields[i]);
    }
}

/// Whether a JSON value shows a function: its name, its documentation, its parameters,
/// and the type that it returns, or null where it returns nothing.
pub open spec fn shows_function(j: JsonView, f: FunctionView) -> bool {
    &&& says(j, "name"@, f.name)
    &&& says(j, "doc"@, f.doc)
    &&& shows_fields(j.at_key("inputs"@), f.inputs)
    &&& f.outputs.len() > 0 ==> j.at_key("output"@) == Some(type_json(f.outputs[0]))
    &&& f.outputs.len() == 0 ==> j.at_key("output"@) == Some(JsonView::Null)
}

/// A function is listed with its name, its documentation, all its parameters, and its
/// output.
pub proof fn law_function_is_listed(f: FunctionView)
    ensures
        shows_function(function_json(f), f),
{
    let output = if f.outputs.len() > 0 {
        type_json(f.outputs[0])
    } else {
        JsonView::Null
    };
    let given = seq![
        ("name"@, JsonView::String(f.name)),
        ("doc"@, JsonView::String(f.doc)),
        ("inputs"@, fields_json(f.inputs)),
        ("output"@, output),
    ];
    assert(function_json(f) == object_view(given));
    lemma_first_keys();
    lemma_pair_found(given, 0);
    lemma_pair_found(given, 1);
    lemma_pair_found(given, 2);
    lemma_pair_found(given, 3);
    lemma_fields(f.inputs);
}

/// Whether a JSON value shows a struct: its name, its documentation and its fields.
pub open spec fn shows_struct(j: JsonView, s: StructView) -> bool {
    &&& says(j, "name"@, s.name)
    &&& says(j, "doc"@, s.doc)
    &&& shows_fields(j.at_key("fields"@), s.fields)
}

/// A struct is listed with its name, its documentation and all its fields, each with
/// its name and its type.
pub proof fn law_struct_is_listed(s: StructView)
    ensures
        shows_struct(struct_json(s), s),
{
    let given = seq![
        ("name"@, JsonView::String(s.name)),
        ("doc"@, JsonView::String(s.doc)),
        ("fields"@, fields_json(s.fields)),
    ];
    assert(struct_json(s) == object_view(given));
    lemma_first_keys();
    lemma_pair_found(given, 0);
    lemma_pair_found(given, 1);
    lemma_pair_found(given, 2);
    lemma_fields(s.fields);
}

/// Whether a JSON value shows a union's case: its name, its documentation, whether it
/// carries values, and their types in their order.
pub open spec fn shows_union_case(j: JsonView, c: UnionCaseView) -> bool {
    &&& says(j, "name"@, c.name)
    &&& says(j, "doc"@, c.doc)
    &&& match (c.types, j.at_key("types"@)) {
        (Some(types), Some(JsonView::Array(items))) => {
            &&& says(j, "kind"@, "tuple"@)
            &&& items.len() == types.len()
            &&& forall|i: int| 0 <= i < types.len() ==> #[trigger] items[i] == type_json(types[i])
        },
        (None, Some(JsonView::Array(items))) => says(j, "kind"@, "void"@) && items.len() == 0,
        _ => false,
    }
}

proof fn lemma_union_case(c: UnionCaseView)
    ensures
        shows_union_case(union_case_json(c), c),
{
    let given = seq![
        ("name"@, JsonView::String(c.name)),
        ("doc"@, JsonView::String(c.doc)),
        ("kind"@, JsonView::String(case_kind(c))),
        ("types"@, JsonView::Array(case_types_json(c))),
    ];
    assert(union_case_json(c) == object_view(given));
    lemma_first_keys();
    lemma_pair_found(given, 0);
    lemma_pair_found(given, 1);
    lemma_pair_found(given, 2);
    lemma_pair_found(given, 3);
}

/// Whether a JSON value shows a union: its name, its documentation, and all its cases
/// in their order.
pub open spec fn shows_union(j: JsonView, u: UnionView) -> bool {
    &&& says(j, "name"@, u.name)
    &&& says(j, "doc"@, u.doc)
    &&& match j.at_key("cases"@) {
        Some(JsonView::Array(items)) => items.len() == u.cases.len() && forall|i: int|
            0 <= i < u.cases.len() ==> shows_union_case(#[trigger] items[i], u.cases[i]),
        _ => false,
    }
}

/// A union is listed with its name, its documentation and all its cases.
pub proof fn law_union_is_listed(u: UnionView)
    ensures
        shows_union(union_json(u), u),
{
    let cases = Seq::new(u.cases.len(), |i: int| union_case_json(u.cases[i]));
    let given = seq![
        ("name"@, JsonView::String(u.name)),
        ("doc"@, JsonView::String(u.doc)),
        ("cases"@, JsonView::Array(cases)),
    ];
    assert(union_json(u) == object_view(given));
    lemma_first_keys();
    lemma_pair_found(given, 0);
    lemma_pair_found(given, 1);
    lemma_pair_found(given, 2);
    assert forall|i: int| 0 <= i < u.cases.len() implies shows_union_case(
        #[trigger] cases[i],
        u.cases[i],
    ) by {
        lemma_union_case(u.cases[i]);
    }
}

/// Whether a JSON value shows a case of an enum: its name, its documentation and its
/// number.
pub open spec fn shows_enum_case(j: JsonView, c: EnumCaseView) -> bool {
    &&& says(j, "name"@, c.name)
    &&& says(j, "doc"@, c.doc)
    &&& j.at_key("value"@) == Some(JsonView::Number(JsonNumber::Unsigned(c.value as u64)))
}

proof fn lemma_enum_case(c: EnumCaseView)
    ensures
        shows_enum_case(enum_case_json(c), c),
{
    let given = seq![
        ("name"@, JsonView::String(c.name)),
        ("doc"@, JsonView::String(c.doc)),
        ("value"@, JsonView::Number(JsonNumber::Unsigned(c.value as u64))),
    ];
    assert(enum_case_json(c) == object_view(given));
    lemma_first_keys();
    lemma_pair_found(given, 0);
    lemma_pair_found(given, 1);
    lemma_pair_found(given, 2);
}

/// Whether a JSON value shows an enum: its name, its documentation, and all its cases
/// in their order.
pub open spec fn shows_enum(j: JsonView, e: EnumView) -> bool {
    &&& says(j, "name"@, e.name)
    &&& says(j, "doc"@, e.doc)
    &&& match j.at_key("cases"@) {
        Some(JsonView::Array(items)) => items.len() == e.cases.len() && forall|i: int|
            0 <= i < e.cases.len() ==> shows_enum_case(#[trigger] items[i], e.cases[i]),
        _ => false,
    }
}

/// An enum is listed with its name, its documentation and all its cases.
pub proof fn law_enum_is_listed(e: EnumView)
    ensures
        shows_enum(enum_json(e), e),
{
    let cases = Seq::new(e.cases.len(), |i: int| enum_case_json(e.cases[i]));
    let given = seq![
        ("name"@, JsonView::String(e.name)),
        ("doc"@, JsonView::String(e.doc)),
        ("cases"@, JsonView::Array(cases)),
    ];
    assert(enum_json(e) == object_view(given));
    lemma_first_keys();
    lemma_pair_found(given, 0);
    lemma_pair_found(given, 1);
    lemma_pair_found(given, 2);
    assert forall|i: int| 0 <= i < e.cases.len() implies shows_enum_case(
        #[trigger] cases[i],
        e.cases[i],
    ) by {
        lemma_enum_case(e.cases[i]);
    }
}

/// Whether a JSON value shows an interface: under the key of each kind all items of
/// that kind, in their order.
pub open spec fn shows_interface(j: JsonView, spec: SpecView) -> bool {
    &&& match j.at_key("functions"@) {
        Some(JsonView::Array(items)) => items.len() == spec.functions.len() && forall|i: int|
            0 <= i < items.len() ==> shows_function(#[trigger] items[i], spec.functions[i]),
        _ => false,
    }
    &&& match j.at_key("structs"@) {
        Some(JsonView::Array(items)) => items.len() == spec.structs.len() && forall|i: int|
            0 <= i < items.len() ==> shows_struct(#[trigger] items[i], spec.structs[i]),
        _ => false,
    }
    &&& match j.at_key("unions"@) {
        Some(JsonView::Array(items)) => items.len() == spec.unions.len() && forall|i: int|
            0 <= i < items.len() ==> shows_union(#[trigger] items[i], spec.unions[i]),
        _ => false,
    }
    &&& match j.at_key("enums"@) {
        Some(JsonView::Array(items)) => items.len() == spec.enums.len() && forall|i: int|
            0 <= i < items.len() ==> shows_enum(#[trigger] items[i], spec.enums[i]),
        _ => false,
    }
    &&& match j.at_key("error_enums"@) {
        Some(JsonView::Array(items)) => items.len() == spec.error_enums.len() && forall|i: int|
            0 <= i < items.len() ==> shows_enum(#[trigger] items[i], spec.error_enums[i]),
        _ => false,
    }
}

/// An interface is listed with all its functions, structs, unions, enums and enums of
/// errors.
pub proof fn law_interface_is_listed(spec: SpecView)
    ensures
        shows_interface(spec_json(spec), spec),
{
    let given = seq![
        ("functions"@, JsonView::Array(function_jsons(spec.functions))),
        ("structs"@, JsonView::Array(struct_jsons(spec.structs))),
        ("unions"@, JsonView::Array(union_jsons(spec.unions))),
        ("enums"@, JsonView::Array(enum_jsons(spec.enums))),
        ("error_enums"@, JsonView::Array(enum_jsons(spec.error_enums))),
    ];
    assert(spec_json(spec) == object_view(given));
    reveal_strlit("functions");
    reveal_strlit("structs");
    reveal_strlit("unions");
    reveal_strlit("enums");
    reveal_strlit("error_enums");
    assert("functions"@.len() == 9 && "structs"@.len() == 7 && "unions"@.len() == 6);
    assert("enums"@.len() == 5 && "error_enums"@.len() == 11);
    lemma_pair_found(given, 0);
    lemma_pair_found(given, 1);
    lemma_pair_found(given, 2);
    lemma_pair_found(given, 3);
    lemma_pair_found(given, 4);
    assert forall|i: int| 0 <= i < spec.functions.len() implies shows_function(
        #[trigger] function_jsons(spec.functions)[i],
        spec.functions[i],
    ) by {
        law_function_is_listed(spec.functions[i]);
    }
    assert forall|i: int| 0 <= i < spec.structs.len() implies shows_struct(
        #[trigger] struct_jsons(spec.structs)[i],
        spec.structs[i],
    ) by {
        law_struct_is_listed(spec.structs[i]);
    }
    assert forall|i: int| 0 <= i < spec.unions.len() implies shows_union(
        #[trigger] union_jsons(spec.unions)[i],
        spec.unions[i],
    ) by {
        law_union_is_listed(spec.unions[i]);
    }
    assert forall|i: int| 0 <= i < spec.enums.len() implies shows_enum(
        #[trigger] enum_jsons(spec.enums)[i],
        spec.enums[i],
    ) by {
        law_enum_is_listed(spec.enums[i]);
    }
    assert forall|i: int| 0 <= i < spec.error_enums.len() implies shows_enum(
        #[trigger] enum_jsons(spec.error_enums)[i],
        spec.error_enums[i],
    ) by {
        law_enum_is_listed(spec.error_enums[i]);
    }
}

/// The functions are listed all and in their order, each as it is and with the method
/// that it is called by: `GET` just where it has been found to be called so.
pub proof fn law_functions_are_listed_with_their_methods(
    functions: Seq<FunctionView>,
    methods: Table<bool>,
)
    ensures
        ({
            let listed = annotated_functions(functions, methods);
            listed.len() == functions.len() && forall|i: int|
                0 <= i < functions.len() ==> shows_function(#[trigger] listed[i], functions[i])
                    && says(
                    listed[i],
                    "http_method"@,
                    if methods.at(functions[i].name) == Some(true) {
                        "GET"@
                    } else {
                        "POST"@
                    },
                )
        }),
{
    let listed = annotated_functions(functions, methods);
    assert forall|i: int| 0 <= i < functions.len() implies shows_function(
        #[trigger] listed[i],
        functions[i],
    ) && says(
        listed[i],
        "http_method"@,
        if methods.at(functions[i].name) == Some(true) {
            "GET"@
        } else {
            "POST"@
        },
    ) by {
        lemma_annotated(functions[i], methods.at(functions[i].name) == Some(true));
    }
}

proof fn lemma_annotated(f: FunctionView, use_get: bool)
    ensures
        shows_function(annotated(f, use_get), f),
        says(
            annotated(f, use_get),
            "http_method"@,
            if use_get {
                "GET"@
            } else {
                "POST"@
            },
        ),
{
    law_function_is_listed(f);
    lemma_first_keys();
    let pairs = function_json(f)->Object_0;
    let method = JsonView::String(
        if use_get {
            "GET"@
        } else {
            "POST"@
        },
    );
    lemma_function_pairs(f);
    lemma_with_key(pairs, "http_method"@, method, "name"@);
    lemma_with_key(pairs, "http_method"@, method, "doc"@);
    lemma_with_key(pairs, "http_method"@, method, "inputs"@);
    lemma_with_key(pairs, "http_method"@, method, "output"@);
}

proof fn lemma_function_pairs(f: FunctionView)
    ensures
        function_json(f) is Object,
        crate::json::keys_increase(function_json(f)->Object_0),
{
    let output = if f.outputs.len() > 0 {
        type_json(f.outputs[0])
    } else {
        JsonView::Null
    };
    let given = seq![
        ("name"@, JsonView::String(f.name)),
        ("doc"@, JsonView::String(f.doc)),
        ("inputs"@, fields_json(f.inputs)),
        ("output"@, output),
    ];
    law_object_lookup(given, "name"@);
}

/// A type is listed with the word for its kind and with what it is made of.
pub proof fn law_type_is_listed(t: TypeView)
    ensures
        ({
            let j = type_json(t);
            match t {
                TypeView::Val => says(j, "kind"@, "val"@),
                TypeView::Bool => says(j, "kind"@, "bool"@),
                TypeView::Void => says(j, "kind"@, "void"@),
                TypeView::Error => says(j, "kind"@, "error"@),
                TypeView::U32 => says(j, "kind"@, "u32"@),
                TypeView::I32 => says(j, "kind"@, "i32"@),
                TypeView::U64 => says(j, "kind"@, "u64"@),
                TypeView::I64 => says(j, "kind"@, "i64"@),
                TypeView::Timepoint => says(j, "kind"@, "timepoint"@),
                TypeView::Duration => says(j, "kind"@, "duration"@),
                TypeView::U128 => says(j, "kind"@, "u128"@),
                TypeView::I128 => says(j, "kind"@, "i128"@),
                TypeView::U256 => says(j, "kind"@, "u256"@),
                TypeView::I256 => says(j, "kind"@, "i256"@),
                TypeView::Bytes => says(j, "kind"@, "bytes"@),
                TypeView::String => says(j, "kind"@, "string"@),
                TypeView::Symbol => says(j, "kind"@, "symbol"@),
                TypeView::Address => says(j, "kind"@, "address"@),
                TypeView::MuxedAddress => says(j, "kind"@, "muxed_address"@),
                TypeView::Option(v) => says(j, "kind"@, "option"@) && j.at_key("value"@) == Some(
                    type_json(*v),
                ),
                TypeView::Result(o, e) => says(j, "kind"@, "result"@) && j.at_key("ok"@) == Some(
                    type_json(*o),
                ) && j.at_key("error"@) == Some(type_json(*e)),
                TypeView::Vec(v) => says(j, "kind"@, "vec"@) && j.at_key("element"@) == Some(
                    type_json(*v),
                ),
                TypeView::Mapping(k, v) => says(j, "kind"@, "map"@) && j.at_key("key"@) == Some(
                    type_json(*k),
                ) && j.at_key("value"@) == Some(type_json(*v)),
                TypeView::Tuple(types) => says(j, "kind"@, "tuple"@) && match j.at_key(
                    "elements"@,
                ) {
                    Some(JsonView::Array(items)) => items.len() == types.len() && forall|i: int|
                        0 <= i < types.len() ==> #[trigger] items[i] == type_json(types[i]),
                    _ => false,
                },
                TypeView::BytesN(n) => says(j, "kind"@, "bytesN"@) && j.at_key("n"@) == Some(
                    JsonView::Number(JsonNumber::Unsigned(n as u64)),
                ),
                TypeView::Udt(name) => says(j, "kind"@, "udt"@) && says(
                    j,
                    "name"@,
                    lossy_text(name),
                ),
            }
        }),
{
    reveal_strlit("kind");
    reveal_strlit("value");
    reveal_strlit("ok");
    reveal_strlit("error");
    reveal_strlit("element");
    reveal_strlit("key");
    reveal_strlit("elements");
    reveal_strlit("n");
    reveal_strlit("name");
    assert("kind"@.len() == 4 && "value"@.len() == 5 && "ok"@.len() == 2 && "error"@.len() == 5);
    assert("element"@.len() == 7 && "key"@.len() == 3 && "elements"@.len() == 8);
    assert("n"@.len() == 1 && "name"@.len() == 4 && "kind"@[0] != "name"@[0]);
    match t {
        TypeView::Option(v) => lemma_two("option"@, "value"@, type_json(*v)),
        TypeView::Result(o, e) => lemma_three(
            "result"@,
            "ok"@,
            type_json(*o),
            "error"@,
            type_json(*e),
        ),
        TypeView::Vec(v) => lemma_two("vec"@, "element"@, type_json(*v)),
        TypeView::Mapping(k, v) => lemma_three(
            "map"@,
            "key"@,
            type_json(*k),
            "value"@,
            type_json(*v),
        ),
        TypeView::Tuple(types) => lemma_two(
            "tuple"@,
            "elements"@,
            JsonView::Array(crate::spec_json::type_jsons(types)),
        ),
        TypeView::BytesN(n) => lemma_two(
            "bytesN"@,
            "n"@,
            JsonView::Number(JsonNumber::Unsigned(n as u64)),
        ),
        TypeView::Udt(name) => lemma_two("udt"@, "name"@, JsonView::String(lossy_text(name))),
        _ => lemma_one(),
    }
}

proof fn lemma_one()
    ensures
        forall|word: Seq<char>|
            says(
                #[trigger] crate::render::object1("kind"@, JsonView::String(word)),
                "kind"@,
                word,
            ),
{
    assert forall|word: Seq<char>|
        says(
            #[trigger] crate::render::object1("kind"@, JsonView::String(word)),
            "kind"@,
            word,
        ) by {
        lemma_pair_found(seq![("kind"@, JsonView::String(word))], 0);
    }
}

proof fn lemma_two(word: Seq<char>, key: Seq<char>, value: JsonView)
    requires
        key != "kind"@,
    ensures
        ({
            let j = crate::spec_json::kind1(word, key, value);
            says(j, "kind"@, word) && j.at_key(key) == Some(value)
        }),
{
    let given = seq![("kind"@, JsonView::String(word)), (key, value)];
    lemma_pair_found(given, 0);
    lemma_pair_found(given, 1);
}

proof fn lemma_three(
    word: Seq<char>,
    key1: Seq<char>,
    value1: JsonView,
    key2: Seq<char>,
    value2: JsonView,
)
    requires
        key1 != "kind"@,
        key2 != "kind"@,
        key1 != key2,
    ensures
        ({
            let j = object_view(
                seq![("kind"@, JsonView::String(word)), (key1, value1), (key2, value2)],
            );
            says(j, "kind"@, word) && j.at_key(key1) == Some(value1) && j.at_key(key2) == Some(
                value2,
            )
        }),
{
    let given = seq![("kind"@, JsonView::String(word)), (key1, value1), (key2, value2)];
    lemma_pair_found(given, 0);
    lemma_pair_found(given, 1);
    lemma_pair_found(given, 2);
}

} // verus!
