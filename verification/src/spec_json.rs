//! A contract's interface rendered as JSON.

use vstd::prelude::*;

use crate::encoding::lossy_text;
use crate::encoding::render_bytes;
use crate::interface::enum_views;
use crate::interface::field_views;
use crate::interface::function_views;
use crate::interface::struct_views;
use crate::interface::type_views;
use crate::interface::union_views;
use crate::interface::EnumCase;
use crate::interface::EnumCaseView;
use crate::interface::EnumDef;
use crate::interface::EnumView;
use crate::interface::Field;
use crate::interface::FieldView;
use crate::interface::Function;
use crate::interface::FunctionView;
use crate::interface::StructDef;
use crate::interface::StructView;
use crate::interface::TypeDef;
use crate::interface::TypeView;
use crate::interface::UnionCase;
use crate::interface::UnionCaseView;
use crate::interface::UnionDef;
use crate::interface::UnionView;
use crate::json::int_number;
use crate::json::json_views;
use crate::json::object;
use crate::json::object_view;
use crate::json::pair_views;
use crate::json::Json;
use crate::json::JsonNumber;
use crate::json::JsonView;
use crate::render::object1;
use crate::render::single;
use crate::spec::ContractSpec;
use crate::spec::SpecView;
use crate::xdr_types::lemma_type_parts;

verus! {

/// An object that says what a type is made of.
pub open spec fn kind1(kind: Seq<char>, key: Seq<char>, value: JsonView) -> JsonView {
    object_view(seq![("kind"@, JsonView::String(kind)), (key, value)])
}

/// A type as JSON.
pub open spec fn type_json(t: TypeView) -> JsonView
    decreases t,
{
    match t {
        TypeView::Val => object1("kind"@, JsonView::String("val"@)),
        TypeView::Bool => object1("kind"@, JsonView::String("bool"@)),
        TypeView::Void => object1("kind"@, JsonView::String("void"@)),
        TypeView::Error => object1("kind"@, JsonView::String("error"@)),
        TypeView::U32 => object1("kind"@, JsonView::String("u32"@)),
        TypeView::I32 => object1("kind"@, JsonView::String("i32"@)),
        TypeView::U64 => object1("kind"@, JsonView::String("u64"@)),
        TypeView::I64 => object1("kind"@, JsonView::String("i64"@)),
        TypeView::Timepoint => object1("kind"@, JsonView::String("timepoint"@)),
        TypeView::Duration => object1("kind"@, JsonView::String("duration"@)),
        TypeView::U128 => object1("kind"@, JsonView::String("u128"@)),
        TypeView::I128 => object1("kind"@, JsonView::String("i128"@)),
        TypeView::U256 => object1("kind"@, JsonView::String("u256"@)),
        TypeView::I256 => object1("kind"@, JsonView::String("i256"@)),
        TypeView::Bytes => object1("kind"@, JsonView::String("bytes"@)),
        TypeView::String => object1("kind"@, JsonView::String("string"@)),
        TypeView::Symbol => object1("kind"@, JsonView::String("symbol"@)),
        TypeView::Address => object1("kind"@, JsonView::String("address"@)),
        TypeView::MuxedAddress => object1("kind"@, JsonView::String("muxed_address"@)),
        TypeView::Option(v) => kind1("option"@, "value"@, type_json(*v)),
        TypeView::Result(o, e) => object_view(
            seq![
                ("kind"@, JsonView::String("result"@)),
                ("ok"@, type_json(*o)),
                ("error"@, type_json(*e)),
            ],
        ),
        TypeView::Vec(v) => kind1("vec"@, "element"@, type_json(*v)),
        TypeView::Mapping(k, v) => object_view(
            seq![
                ("kind"@, JsonView::String("map"@)),
                ("key"@, type_json(*k)),
                ("value"@, type_json(*v)),
            ],
        ),
        TypeView::Tuple(items) => kind1("tuple"@, "elements"@, JsonView::Array(type_jsons(items))),
        TypeView::BytesN(n) => kind1("bytesN"@, "n"@, JsonView::Number(int_number(n as int))),
        TypeView::Udt(name) => kind1("udt"@, "name"@, JsonView::String(lossy_text(name))),
    }
}

pub open spec fn type_jsons(items: Seq<TypeView>) -> Seq<JsonView>
    decreases items,
{
    Seq::new(
        items.len(),
        |i: int|
            if 0 <= i < items.len() {
                type_json(items[i])
            } else {
                arbitrary()
            },
    )
}

fn kind_to_json(kind: &str, key: &str, value: Json) -> (r: Json)
    ensures
        r@ == kind1(kind@, key@, value@),
{
    let pairs = vec![("kind".to_owned(), Json::text(kind)), (key.to_owned(), value)];
    assert(pair_views(pairs@) =~= seq![("kind"@, JsonView::String(kind@)), (key@, value@)]);
    object(pairs)
}

/// Renders a type.
pub fn type_def_to_json(t: &TypeDef) -> (r: Json)
    ensures
        r@ == type_json(t@),
    decreases t@,
{
    proof {
        lemma_type_parts(t@);
    }
    match t {
        TypeDef::Val => single("kind", Json::text("val")),
        TypeDef::Bool => single("kind", Json::text("bool")),
        TypeDef::Void => single("kind", Json::text("void")),
        TypeDef::Error => single("kind", Json::text("error")),
        TypeDef::U32 => single("kind", Json::text("u32")),
        TypeDef::I32 => single("kind", Json::text("i32")),
        TypeDef::U64 => single("kind", Json::text("u64")),
        TypeDef::I64 => single("kind", Json::text("i64")),
        TypeDef::Timepoint => single("kind", Json::text("timepoint")),
        TypeDef::Duration => single("kind", Json::text("duration")),
        TypeDef::U128 => single("kind", Json::text("u128")),
        TypeDef::I128 => single("kind", Json::text("i128")),
        TypeDef::U256 => single("kind", Json::text("u256")),
        TypeDef::I256 => single("kind", Json::text("i256")),
        TypeDef::Bytes => single("kind", Json::text("bytes")),
        TypeDef::String => single("kind", Json::text("string")),
        TypeDef::Symbol => single("kind", Json::text("symbol")),
        TypeDef::Address => single("kind", Json::text("address")),
        TypeDef::MuxedAddress => single("kind", Json::text("muxed_address")),
        TypeDef::Option(v) => kind_to_json("option", "value", type_def_to_json(v)),
        TypeDef::Result(o, e) => {
            let pairs = vec![
                ("kind".to_owned(), Json::text("result")),
                ("ok".to_owned(), type_def_to_json(o)),
                ("error".to_owned(), type_def_to_json(e)),
            ];
            assert(pair_views(pairs@) =~= seq![
                ("kind"@, JsonView::String("result"@)),
                ("ok"@, type_json(o@)),
                ("error"@, type_json(e@)),
            ]);
            object(pairs)
        },
        TypeDef::Vec(v) => kind_to_json("vec", "element", type_def_to_json(v)),
        TypeDef::Mapping(k, v) => {
            let pairs = vec![
                ("kind".to_owned(), Json::text("map")),
                ("key".to_owned(), type_def_to_json(k)),
                ("value".to_owned(), type_def_to_json(v)),
            ];
            assert(pair_views(pairs@) =~= seq![
                ("kind"@, JsonView::String("map"@)),
                ("key"@, type_json(k@)),
                ("value"@, type_json(v@)),
            ]);
            object(pairs)
        },
        TypeDef::Tuple(items) => {
            let ghost shown = type_views(items@);
            let mut out: Vec<Json> = Vec::new();
            let mut i: usize = 0;
            proof {
                assert(t@ == TypeView::Tuple(shown));
                assert(decreases_to!(t@ => t@->Tuple_0));
            }
            while i < items.len()
                invariant
                    i <= items@.len(),
                    shown == type_views(items@),
                    t@ == TypeView::Tuple(shown),
                    decreases_to!(t@ => t@->Tuple_0),
                    out@.len() == i,
                    forall|k: int| 0 <= k < i ==> (#[trigger] out@[k])@ == type_jsons(shown)[k],
                decreases items@.len() - i,
            {
                proof {
                    assert(t@->Tuple_0[i as int] == items@[i as int]@);
                }
                out.push(type_def_to_json(&items[i]));
                i += 1;
            }
            assert(json_views(out@) =~= type_jsons(shown));
            kind_to_json("tuple", "elements", Json::Array(out))
        },
        TypeDef::BytesN(n) => kind_to_json(
            "bytesN",
            "n",
            Json::Number(JsonNumber::Unsigned(*n as u64)),
        ),
        TypeDef::Udt(name) => kind_to_json("udt", "name", Json::String(render_bytes(name))),
    }
}

fn types_to_json(items: &Vec<TypeDef>) -> (r: Json)
    ensures
        r@ == JsonView::Array(type_jsons(type_views(items@))),
{
    let ghost shown = type_views(items@);
    let mut out: Vec<Json> = Vec::new();
    let mut i: usize = 0;
    while i < items.len()
        invariant
            i <= items@.len(),
            shown == type_views(items@),
            out@.len() == i,
            forall|k: int| 0 <= k < i ==> (#[trigger] out@[k])@ == type_jsons(shown)[k],
        decreases items@.len() - i,
    {
        out.push(type_def_to_json(&items[i]));
        i += 1;
    }
    assert(json_views(out@) =~= type_jsons(shown));
    Json::Array(out)
}

/// A parameter or a field as JSON.
pub open spec fn field_json(f: FieldView) -> JsonView {
    object_view(
        seq![
            ("name"@, JsonView::String(f.name)),
            ("doc"@, JsonView::String(f.doc)),
            ("type"@, type_json(f.type_)),
        ],
    )
}

pub open spec fn fields_json(items: Seq<FieldView>) -> JsonView {
    JsonView::Array(Seq::new(items.len(), |i: int| field_json(items[i])))
}

fn field_to_json(f: &Field) -> (r: Json)
    ensures
        r@ == field_json(f@),
{
    let pairs = vec![
        ("name".to_owned(), Json::text(f.name.as_str())),
        ("doc".to_owned(), Json::text(f.doc.as_str())),
        ("type".to_owned(), type_def_to_json(&f.type_)),
    ];
    assert(pair_views(pairs@) =~= seq![
        ("name"@, JsonView::String(f@.name)),
        ("doc"@, JsonView::String(f@.doc)),
        ("type"@, type_json(f@.type_)),
    ]);
    object(pairs)
}

fn fields_to_json(items: &Vec<Field>) -> (r: Json)
    ensures
        r@ == fields_json(field_views(items@)),
{
    let mut out: Vec<Json> = Vec::new();
    let mut i: usize = 0;
    while i < items.len()
        invariant
            i <= items@.len(),
            out@.len() == i,
            forall|k: int| 0 <= k < i ==> (#[trigger] out@[k])@ == field_json(items@[k]@),
        decreases items@.len() - i,
    {
        out.push(field_to_json(&items[i]));
        i += 1;
    }
    assert(json_views(out@) =~= Seq::new(
        items@.len(),
        |k: int| field_json(field_views(items@)[k]),
    ));
    Json::Array(out)
}

/// A function as JSON.
pub open spec fn function_json(f: FunctionView) -> JsonView {
    object_view(
        seq![
            ("name"@, JsonView::String(f.name)),
            ("doc"@, JsonView::String(f.doc)),
            ("inputs"@, fields_json(f.inputs)),
            (
                "output"@,
                if f.outputs.len() > 0 {
                    type_json(f.outputs[0])
                } else {
                    JsonView::Null
                },
            ),
        ],
    )
}

/// Renders a function.
pub fn function_to_json(f: &Function) -> (r: Json)
    ensures
        r@ == function_json(f@),
{
    let output = if f.outputs.len() > 0 {
        type_def_to_json(&f.outputs[0])
    } else {
        Json::Null
    };
    let pairs = vec![
        ("name".to_owned(), Json::text(f.name.as_str())),
        ("doc".to_owned(), Json::text(f.doc.as_str())),
        ("inputs".to_owned(), fields_to_json(&f.inputs)),
        ("output".to_owned(), output),
    ];
    assert(pair_views(pairs@) =~= seq![
        ("name"@, JsonView::String(f@.name)),
        ("doc"@, JsonView::String(f@.doc)),
        ("inputs"@, fields_json(f@.inputs)),
        (
            "output"@,
            if f@.outputs.len() > 0 {
                type_json(f@.outputs[0])
            } else {
                JsonView::Null
            },
        ),
    ]);
    object(pairs)
}

/// A struct as JSON.
pub open spec fn struct_json(s: StructView) -> JsonView {
    object_view(
        seq![
            ("name"@, JsonView::String(s.name)),
            ("doc"@, JsonView::String(s.doc)),
            ("fields"@, fields_json(s.fields)),
        ],
    )
}

fn struct_to_json(s: &StructDef) -> (r: Json)
    ensures
        r@ == struct_json(s@),
{
    let pairs = vec![
        ("name".to_owned(), Json::text(s.name.as_str())),
        ("doc".to_owned(), Json::text(s.doc.as_str())),
        ("fields".to_owned(), fields_to_json(&s.fields)),
    ];
    assert(pair_views(pairs@) =~= seq![
        ("name"@, JsonView::String(s@.name)),
        ("doc"@, JsonView::String(s@.doc)),
        ("fields"@, fields_json(s@.fields)),
    ]);
    object(pairs)
}

/// A union's case as JSON.
pub open spec fn union_case_json(c: UnionCaseView) -> JsonView {
    object_view(
        seq![
            ("name"@, JsonView::String(c.name)),
            ("doc"@, JsonView::String(c.doc)),
            ("kind"@, JsonView::String(case_kind(c))),
            ("types"@, JsonView::Array(case_types_json(c))),
        ],
    )
}

/// Whether a union's case carries values.
pub open spec fn case_kind(c: UnionCaseView) -> Seq<char> {
    match c.types {
        Some(_) => "tuple"@,
        None => "void"@,
    }
}

pub open spec fn case_types_json(c: UnionCaseView) -> Seq<JsonView> {
    match c.types {
        Some(types) => type_jsons(types),
        None => Seq::empty(),
    }
}

fn union_case_to_json(c: &UnionCase) -> (r: Json)
    ensures
        r@ == union_case_json(c@),
{
    let (kind, types) = match &c.types {
        Some(types) => ("tuple", types_to_json(types)),
        None => {
            let none: Vec<Json> = Vec::new();
            assert(json_views(none@) =~= Seq::empty());
            ("void", Json::Array(none))
        },
    };
    let pairs = vec![
        ("name".to_owned(), Json::text(c.name.as_str())),
        ("doc".to_owned(), Json::text(c.doc.as_str())),
        ("kind".to_owned(), Json::text(kind)),
        ("types".to_owned(), types),
    ];
    assert(pair_views(pairs@) =~= seq![
        ("name"@, JsonView::String(c@.name)),
        ("doc"@, JsonView::String(c@.doc)),
        ("kind"@, JsonView::String(case_kind(c@))),
        ("types"@, JsonView::Array(case_types_json(c@))),
    ]);
    object(pairs)
}

/// A union as JSON.
pub open spec fn union_json(u: UnionView) -> JsonView {
    object_view(
        seq![
            ("name"@, JsonView::String(u.name)),
            ("doc"@, JsonView::String(u.doc)),
            (
                "cases"@,
                JsonView::Array(Seq::new(u.cases.len(), |i: int| union_case_json(u.cases[i]))),
            ),
        ],
    )
}

fn union_to_json(u: &UnionDef) -> (r: Json)
    ensures
        r@ == union_json(u@),
{
    let mut out: Vec<Json> = Vec::new();
    let mut i: usize = 0;
    while i < u.cases.len()
        invariant
            i <= u.cases@.len(),
            out@.len() == i,
            forall|k: int| 0 <= k < i ==> (#[trigger] out@[k])@ == union_case_json(u@.cases[k]),
        decreases u.cases@.len() - i,
    {
        assert(u@.cases[i as int] == u.cases@[i as int]@);
        out.push(union_case_to_json(&u.cases[i]));
        i += 1;
    }
    let ghost cases = Seq::new(u@.cases.len(), |i: int| union_case_json(u@.cases[i]));
    assert(json_views(out@) =~= cases);
    let pairs = vec![
        ("name".to_owned(), Json::text(u.name.as_str())),
        ("doc".to_owned(), Json::text(u.doc.as_str())),
        ("cases".to_owned(), Json::Array(out)),
    ];
    assert(pair_views(pairs@) =~= seq![
        ("name"@, JsonView::String(u@.name)),
        ("doc"@, JsonView::String(u@.doc)),
        ("cases"@, JsonView::Array(cases)),
    ]);
    object(pairs)
}

/// An enum's case as JSON.
pub open spec fn enum_case_json(c: EnumCaseView) -> JsonView {
    object_view(
        seq![
            ("name"@, JsonView::String(c.name)),
            ("doc"@, JsonView::String(c.doc)),
            ("value"@, JsonView::Number(int_number(c.value as int))),
        ],
    )
}

fn enum_case_to_json(c: &EnumCase) -> (r: Json)
    ensures
        r@ == enum_case_json(c@),
{
    let pairs = vec![
        ("name".to_owned(), Json::text(c.name.as_str())),
        ("doc".to_owned(), Json::text(c.doc.as_str())),
        ("value".to_owned(), Json::Number(JsonNumber::Unsigned(c.value as u64))),
    ];
    assert(pair_views(pairs@) =~= seq![
        ("name"@, JsonView::String(c@.name)),
        ("doc"@, JsonView::String(c@.doc)),
        ("value"@, JsonView::Number(int_number(c@.value as int))),
    ]);
    object(pairs)
}

/// An enum, or an enum of errors, as JSON.
pub open spec fn enum_json(e: EnumView) -> JsonView {
    object_view(
        seq![
            ("name"@, JsonView::String(e.name)),
            ("doc"@, JsonView::String(e.doc)),
            (
                "cases"@,
                JsonView::Array(Seq::new(e.cases.len(), |i: int| enum_case_json(e.cases[i]))),
            ),
        ],
    )
}

fn enum_to_json(e: &EnumDef) -> (r: Json)
    ensures
        r@ == enum_json(e@),
{
    let mut out: Vec<Json> = Vec::new();
    let mut i: usize = 0;
    while i < e.cases.len()
        invariant
            i <= e.cases@.len(),
            out@.len() == i,
            forall|k: int| 0 <= k < i ==> (#[trigger] out@[k])@ == enum_case_json(e@.cases[k]),
        decreases e.cases@.len() - i,
    {
        assert(e@.cases[i as int] == e.cases@[i as int]@);
        out.push(enum_case_to_json(&e.cases[i]));
        i += 1;
    }
    let ghost cases = Seq::new(e@.cases.len(), |i: int| enum_case_json(e@.cases[i]));
    assert(json_views(out@) =~= cases);
    let pairs = vec![
        ("name".to_owned(), Json::text(e.name.as_str())),
        ("doc".to_owned(), Json::text(e.doc.as_str())),
        ("cases".to_owned(), Json::Array(out)),
    ];
    assert(pair_views(pairs@) =~= seq![
        ("name"@, JsonView::String(e@.name)),
        ("doc"@, JsonView::String(e@.doc)),
        ("cases"@, JsonView::Array(cases)),
    ]);
    object(pairs)
}

pub open spec fn function_jsons(items: Seq<FunctionView>) -> Seq<JsonView> {
    Seq::new(items.len(), |i: int| function_json(items[i]))
}

pub open spec fn struct_jsons(items: Seq<StructView>) -> Seq<JsonView> {
    Seq::new(items.len(), |i: int| struct_json(items[i]))
}

pub open spec fn union_jsons(items: Seq<UnionView>) -> Seq<JsonView> {
    Seq::new(items.len(), |i: int| union_json(items[i]))
}

pub open spec fn enum_jsons(items: Seq<EnumView>) -> Seq<JsonView> {
    Seq::new(items.len(), |i: int| enum_json(items[i]))
}

fn functions_to_json(items: &Vec<Function>) -> (r: Json)
    ensures
        r@ == JsonView::Array(function_jsons(function_views(items@))),
{
    let mut out: Vec<Json> = Vec::new();
    let mut i: usize = 0;
    while i < items.len()
        invariant
            i <= items@.len(),
            out@.len() == i,
            forall|k: int| 0 <= k < i ==> (#[trigger] out@[k])@ == function_json(items@[k]@),
        decreases items@.len() - i,
    {
        out.push(function_to_json(&items[i]));
        i += 1;
    }
    assert(json_views(out@) =~= function_jsons(function_views(items@)));
    Json::Array(out)
}

fn structs_to_json(items: &Vec<StructDef>) -> (r: Json)
    ensures
        r@ == JsonView::Array(struct_jsons(struct_views(items@))),
{
    let mut out: Vec<Json> = Vec::new();
    let mut i: usize = 0;
    while i < items.len()
        invariant
            i <= items@.len(),
            out@.len() == i,
            forall|k: int| 0 <= k < i ==> (#[trigger] out@[k])@ == struct_json(items@[k]@),
        decreases items@.len() - i,
    {
        out.push(struct_to_json(&items[i]));
        i += 1;
    }
    assert(json_views(out@) =~= struct_jsons(struct_views(items@)));
    Json::Array(out)
}

fn unions_to_json(items: &Vec<UnionDef>) -> (r: Json)
    ensures
        r@ == JsonView::Array(union_jsons(union_views(items@))),
{
    let mut out: Vec<Json> = Vec::new();
    let mut i: usize = 0;
    while i < items.len()
        invariant
            i <= items@.len(),
            out@.len() == i,
            forall|k: int| 0 <= k < i ==> (#[trigger] out@[k])@ == union_json(items@[k]@),
        decreases items@.len() - i,
    {
        out.push(union_to_json(&items[i]));
        i += 1;
    }
    assert(json_views(out@) =~= union_jsons(union_views(items@)));
    Json::Array(out)
}

fn enums_to_json(items: &Vec<EnumDef>) -> (r: Json)
    ensures
        r@ == JsonView::Array(enum_jsons(enum_views(items@))),
{
    let mut out: Vec<Json> = Vec::new();
    let mut i: usize = 0;
    while i < items.len()
        invariant
            i <= items@.len(),
            out@.len() == i,
            forall|k: int| 0 <= k < i ==> (#[trigger] out@[k])@ == enum_json(items@[k]@),
        decreases items@.len() - i,
    {
        out.push(enum_to_json(&items[i]));
        i += 1;
    }
    assert(json_views(out@) =~= enum_jsons(enum_views(items@)));
    Json::Array(out)
}

/// An interface as JSON.
pub open spec fn spec_json(spec: SpecView) -> JsonView {
    object_view(
        seq![
            ("functions"@, JsonView::Array(function_jsons(spec.functions))),
            ("structs"@, JsonView::Array(struct_jsons(spec.structs))),
            ("unions"@, JsonView::Array(union_jsons(spec.unions))),
            ("enums"@, JsonView::Array(enum_jsons(spec.enums))),
            ("error_enums"@, JsonView::Array(enum_jsons(spec.error_enums))),
        ],
    )
}

impl ContractSpec {
    /// Renders the interface.
    pub fn to_json(&self) -> (r: Json)
        ensures
            r@ == spec_json(self@),
    {
        let pairs = vec![
            ("functions".to_owned(), functions_to_json(&self.functions)),
            ("structs".to_owned(), structs_to_json(&self.structs)),
            ("unions".to_owned(), unions_to_json(&self.unions)),
            ("enums".to_owned(), enums_to_json(&self.enums)),
            ("error_enums".to_owned(), enums_to_json(&self.error_enums)),
        ];
        assert(pair_views(pairs@) =~= seq![
            ("functions"@, JsonView::Array(function_jsons(self@.functions))),
            ("structs"@, JsonView::Array(struct_jsons(self@.structs))),
            ("unions"@, JsonView::Array(union_jsons(self@.unions))),
            ("enums"@, JsonView::Array(enum_jsons(self@.enums))),
            ("error_enums"@, JsonView::Array(enum_jsons(self@.error_enums))),
        ]);
        object(pairs)
    }
}

} // verus!
