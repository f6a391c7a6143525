//! Contract interfaces from the types of `stellar_xdr`, and out of a WASM module.

use vstd::prelude::*;

use stellar_xdr::ScSpecEntry as OutEntry;
use stellar_xdr::ScSpecTypeDef as OutType;
use stellar_xdr::ScSpecUdtUnionCaseV0 as OutCase;

use crate::interface::entry_views;
use crate::interface::field_views;
use crate::interface::type_views;
use crate::interface::union_case_views;
use crate::interface::EnumCase;
use crate::interface::EnumDef;
use crate::interface::Field;
use crate::interface::FieldView;
use crate::interface::Function;
use crate::interface::FunctionView;
use crate::interface::SpecEntry;
use crate::interface::SpecEntryView;
use crate::interface::StructDef;
use crate::interface::StructView;
use crate::interface::TypeDef;
use crate::interface::TypeView;
use crate::interface::UnionCase;
use crate::interface::UnionCaseView;
use crate::interface::UnionDef;
use crate::interface::UnionView;

verus! {

#[verifier::external_type_specification]
#[verifier::external_body]
pub struct ExScSpecTypeDef(stellar_xdr::ScSpecTypeDef);

#[verifier::external_type_specification]
#[verifier::external_body]
pub struct ExScSpecEntry(stellar_xdr::ScSpecEntry);

/// What a `stellar_xdr::ScSpecTypeDef` holds.
pub uninterp spec fn type_held(t: stellar_xdr::ScSpecTypeDef) -> TypeView;

/// What a `stellar_xdr::ScSpecEntry` holds, its names and docs as text in which
/// replacement characters stand for what is no UTF-8.
pub uninterp spec fn entry_held(e: stellar_xdr::ScSpecEntry) -> SpecEntryView;

pub open spec fn held_types(items: Seq<stellar_xdr::ScSpecTypeDef>) -> Seq<TypeView> {
    Seq::new(items.len(), |i: int| type_held(items[i]))
}

/// The numeric types.
pub open spec fn is_numeric(t: TypeView) -> bool {
    match t {
        TypeView::U32 => true,
        TypeView::I32 => true,
        TypeView::U64 => true,
        TypeView::I64 => true,
        TypeView::Timepoint => true,
        TypeView::Duration => true,
        TypeView::U128 => true,
        TypeView::I128 => true,
        TypeView::U256 => true,
        TypeView::I256 => true,
        _ => false,
    }
}

/// The types that are made of others.
pub open spec fn is_compound(t: TypeView) -> bool {
    match t {
        TypeView::Option(_) => true,
        TypeView::Result(_, _) => true,
        TypeView::Vec(_) => true,
        TypeView::Mapping(_, _) => true,
        TypeView::Tuple(_) => true,
        _ => false,
    }
}

/// Whether a type keeps to the limits of the wire format: a tuple has at most
/// 12 elements, and the name of a user-defined type at most 60 bytes.
pub open spec fn type_fits(t: TypeView) -> bool
    decreases t,
{
    match t {
        TypeView::Option(v) => type_fits(*v),
        TypeView::Result(o, e) => type_fits(*o) && type_fits(*e),
        TypeView::Vec(v) => type_fits(*v),
        TypeView::Mapping(k, v) => type_fits(*k) && type_fits(*v),
        TypeView::Tuple(items) => {
            &&& items.len() <= 12
            &&& forall|i: int| 0 <= i < items.len() ==> type_fits(#[trigger] items[i])
        },
        TypeView::Udt(name) => name.len() <= 60,
        _ => true,
    }
}

/// One layer of a type that is made of others.
pub enum TypeLayer {
    Option(stellar_xdr::ScSpecTypeDef),
    Result(stellar_xdr::ScSpecTypeDef, stellar_xdr::ScSpecTypeDef),
    Vec(stellar_xdr::ScSpecTypeDef),
    Mapping(stellar_xdr::ScSpecTypeDef, stellar_xdr::ScSpecTypeDef),
    Tuple(Vec<stellar_xdr::ScSpecTypeDef>),
}

impl TypeLayer {
    pub open spec fn held(self) -> TypeView {
        match self {
            TypeLayer::Option(v) => TypeView::Option(Box::new(type_held(v))),
            TypeLayer::Result(o, e) => TypeView::Result(
                Box::new(type_held(o)),
                Box::new(type_held(e)),
            ),
            TypeLayer::Vec(v) => TypeView::Vec(Box::new(type_held(v))),
            TypeLayer::Mapping(k, v) => TypeView::Mapping(
                Box::new(type_held(k)),
                Box::new(type_held(v)),
            ),
            TypeLayer::Tuple(items) => TypeView::Tuple(held_types(items@)),
        }
    }
}

/// Reads the numeric variants of `stellar_xdr::ScSpecTypeDef`; hands any other
/// back.
#[verifier::external_body]
fn split_numeric(t: stellar_xdr::ScSpecTypeDef) -> (r: Result<TypeDef, stellar_xdr::ScSpecTypeDef>)
    ensures
        match r {
            Ok(x) => x@ == type_held(t),
            Err(o) => o == t && !is_numeric(type_held(t)),
        },
{
    Ok(match t {
        OutType::U32 => TypeDef::U32,
        OutType::I32 => TypeDef::I32,
        OutType::U64 => TypeDef::U64,
        OutType::I64 => TypeDef::I64,
        OutType::Timepoint => TypeDef::Timepoint,
        OutType::Duration => TypeDef::Duration,
        OutType::U128 => TypeDef::U128,
        OutType::I128 => TypeDef::I128,
        OutType::U256 => TypeDef::U256,
        OutType::I256 => TypeDef::I256,
        other => return Err(other),
    })
}

/// Reads the variants of `stellar_xdr::ScSpecTypeDef` that are neither numeric
/// nor made of other types; hands any other back.
#[verifier::external_body]
fn split_plain(t: stellar_xdr::ScSpecTypeDef) -> (r: Result<TypeDef, stellar_xdr::ScSpecTypeDef>)
    ensures
        match r {
            Ok(x) => x@ == type_held(t),
            Err(o) => o == t && (is_numeric(type_held(t)) || is_compound(type_held(t))),
        },
{
    Ok(match t {
        OutType::Val => TypeDef::Val,
        OutType::Bool => TypeDef::Bool,
        OutType::Void => TypeDef::Void,
        OutType::Error => TypeDef::Error,
        OutType::Bytes => TypeDef::Bytes,
        OutType::String => TypeDef::String,
        OutType::Symbol => TypeDef::Symbol,
        OutType::Address => TypeDef::Address,
        OutType::MuxedAddress => TypeDef::MuxedAddress,
        OutType::BytesN(b) => TypeDef::BytesN(b.n),
        OutType::Udt(u) => TypeDef::Udt(u.name.into()),
        other => return Err(other),
    })
}

/// Takes apart the variants of `stellar_xdr::ScSpecTypeDef` that are made of
/// other types.
#[verifier::external_body]
fn split_compound(t: stellar_xdr::ScSpecTypeDef) -> (r: Option<TypeLayer>)
    ensures
        match r {
            Some(layer) => layer.held() == type_held(t),
            None => !is_compound(type_held(t)),
        },
{
    Some(match t {
        OutType::Option(o) => TypeLayer::Option(*o.value_type),
        OutType::Result(r) => TypeLayer::Result(*r.ok_type, *r.error_type),
        OutType::Vec(v) => TypeLayer::Vec(*v.element_type),
        OutType::Map(m) => TypeLayer::Mapping(*m.key_type, *m.value_type),
        OutType::Tuple(t) => TypeLayer::Tuple(t.value_types.into()),
        _ => return None,
    })
}

/// Builds the numeric variants of `stellar_xdr::ScSpecTypeDef`.
#[verifier::external_body]
fn join_numeric(t: &TypeDef) -> (r: Option<stellar_xdr::ScSpecTypeDef>)
    ensures
        match r {
            Some(x) => type_held(x) == t@ && is_numeric(t@),
            None => !is_numeric(t@),
        },
{
    Some(match t {
        TypeDef::U32 => OutType::U32,
        TypeDef::I32 => OutType::I32,
        TypeDef::U64 => OutType::U64,
        TypeDef::I64 => OutType::I64,
        TypeDef::Timepoint => OutType::Timepoint,
        TypeDef::Duration => OutType::Duration,
        TypeDef::U128 => OutType::U128,
        TypeDef::I128 => OutType::I128,
        TypeDef::U256 => OutType::U256,
        TypeDef::I256 => OutType::I256,
        _ => return None,
    })
}

/// Builds the variants of `stellar_xdr::ScSpecTypeDef` that are neither numeric
/// nor made of other types. A name beyond the length that `StringM` allows is
/// refused.
#[verifier::external_body]
fn join_plain(t: &TypeDef) -> (r: Option<stellar_xdr::ScSpecTypeDef>)
    ensures
        match r {
            Some(x) => type_held(x) == t@ && type_fits(t@),
            None => is_numeric(t@) || is_compound(t@) || !type_fits(t@),
        },
{
    Some(match t {
        TypeDef::Val => OutType::Val,
        TypeDef::Bool => OutType::Bool,
        TypeDef::Void => OutType::Void,
        TypeDef::Error => OutType::Error,
        TypeDef::Bytes => OutType::Bytes,
        TypeDef::String => OutType::String,
        TypeDef::Symbol => OutType::Symbol,
        TypeDef::Address => OutType::Address,
        TypeDef::MuxedAddress => OutType::MuxedAddress,
        TypeDef::BytesN(n) => OutType::BytesN(stellar_xdr::ScSpecTypeBytesN { n: *n }),
        TypeDef::Udt(s) => OutType::Udt(stellar_xdr::ScSpecTypeUdt { name: s.try_into().ok()? }),
        _ => return None,
    })
}

/// Builds the variants of `stellar_xdr::ScSpecTypeDef` that are made of other
/// types. More elements than a tuple's `VecM` allows are refused.
#[verifier::external_body]
fn join_compound(layer: TypeLayer) -> (r: Option<stellar_xdr::ScSpecTypeDef>)
    ensures
        match r {
            Some(x) => type_held(x) == layer.held() && (layer matches TypeLayer::Tuple(items)
                ==> items@.len() <= 12),
            None => layer matches TypeLayer::Tuple(items) && items@.len() > 12,
        },
{
    Some(match layer {
        TypeLayer::Option(v) => OutType::Option(
            Box::new(stellar_xdr::ScSpecTypeOption { value_type: Box::new(v) })),
        TypeLayer::Result(o, e) => OutType::Result(Box::new(
            stellar_xdr::ScSpecTypeResult { ok_type: Box::new(o), error_type: Box::new(e) })),
        TypeLayer::Vec(v) => OutType::Vec(
            Box::new(stellar_xdr::ScSpecTypeVec { element_type: Box::new(v) })),
        TypeLayer::Mapping(k, v) => OutType::Map(Box::new(
            stellar_xdr::ScSpecTypeMap { key_type: Box::new(k), value_type: Box::new(v) })),
        TypeLayer::Tuple(items) => OutType::Tuple(
            Box::new(stellar_xdr::ScSpecTypeTuple { value_types: items.try_into().ok()? })),
    })
}

/// The debug notation of a type.
pub uninterp spec fn type_debug(t: TypeView) -> Seq<char>;

/// `Debug` of `stellar_xdr::ScSpecTypeDef`.
#[verifier::external_body]
fn debug_xdr_type(t: &stellar_xdr::ScSpecTypeDef) -> (r: String)
    ensures
        r@ == type_debug(type_held(*t)),
{
    format!("{:?}", t)
}

/// The parts of a type are smaller than the type.
pub proof fn lemma_type_parts(t: TypeView)
    ensures
        t matches TypeView::Option(v) ==> decreases_to!(t => *v),
        t matches TypeView::Result(o, e) ==> decreases_to!(t => *o) && decreases_to!(t => *e),
        t matches TypeView::Vec(v) ==> decreases_to!(t => *v),
        t matches TypeView::Mapping(k, v) ==> decreases_to!(t => *k) && decreases_to!(t => *v),
{
    assert(t is Option ==> decreases_to!(t => t->Option_0));
    assert(t is Result ==> decreases_to!(t => t->Result_0) && decreases_to!(t => t->Result_1));
    assert(t is Vec ==> decreases_to!(t => t->Vec_0));
    assert(t is Mapping ==> decreases_to!(t => t->Mapping_0) && decreases_to!(t => t->Mapping_1));
}

impl TypeDef {
    /// Reads a `stellar_xdr::ScSpecTypeDef`.
    pub fn from_xdr(t: stellar_xdr::ScSpecTypeDef) -> (r: TypeDef)
        ensures
            r@ == type_held(t),
        decreases type_held(t),
    {
        let ghost whole = type_held(t);
        let t1 = match split_numeric(t) {
            Ok(x) => return x,
            Err(o) => o,
        };
        let t2 = match split_plain(t1) {
            Ok(x) => return x,
            Err(o) => o,
        };
        proof {
            lemma_type_parts(whole);
        }
        match split_compound(t2) {
            Some(TypeLayer::Option(v)) => TypeDef::Option(Box::new(TypeDef::from_xdr(v))),
            Some(TypeLayer::Result(o, e)) => TypeDef::Result(
                Box::new(TypeDef::from_xdr(o)),
                Box::new(TypeDef::from_xdr(e)),
            ),
            Some(TypeLayer::Vec(v)) => TypeDef::Vec(Box::new(TypeDef::from_xdr(v))),
            Some(TypeLayer::Mapping(k, v)) => TypeDef::Mapping(
                Box::new(TypeDef::from_xdr(k)),
                Box::new(TypeDef::from_xdr(v)),
            ),
            Some(TypeLayer::Tuple(items)) => {
                let ghost all = items@;
                proof {
                    assert(whole == TypeView::Tuple(held_types(all)));
                    assert(decreases_to!(whole => whole->Tuple_0));
                }
                let mut out: Vec<TypeDef> = Vec::new();
                for item in it: items
                    invariant
                        it.seq() == all,
                        whole == type_held(t),
                        whole == TypeView::Tuple(held_types(all)),
                        decreases_to!(whole => whole->Tuple_0),
                        out@.len() == it.index(),
                        forall|k: int|
                            0 <= k < it.index() ==> (#[trigger] out@[k])@ == type_held(all[k]),
                {
                    proof {
                        assert(whole->Tuple_0[it.index()] == type_held(item));
                    }
                    out.push(TypeDef::from_xdr(item));
                }
                assert(type_views(out@) =~= held_types(all));
                TypeDef::Tuple(out)
            },
            None => {
                assert(false);
                TypeDef::Void
            },
        }
    }

    /// Builds the `stellar_xdr::ScSpecTypeDef` for this type, if it keeps to the
    /// limits of the wire format.
    pub fn to_xdr(&self) -> (r: Option<stellar_xdr::ScSpecTypeDef>)
        ensures
            match r {
                Some(x) => type_held(x) == self@ && type_fits(self@),
                None => !type_fits(self@),
            },
        decreases self@,
    {
        proof {
            lemma_type_parts(self@);
        }
        match self {
            TypeDef::Option(v) => match v.to_xdr() {
                Some(x) => join_compound(TypeLayer::Option(x)),
                None => None,
            },
            TypeDef::Result(o, e) => match (o.to_xdr(), e.to_xdr()) {
                (Some(x), Some(y)) => join_compound(TypeLayer::Result(x, y)),
                _ => None,
            },
            TypeDef::Vec(v) => match v.to_xdr() {
                Some(x) => join_compound(TypeLayer::Vec(x)),
                None => None,
            },
            TypeDef::Mapping(k, v) => match (k.to_xdr(), v.to_xdr()) {
                (Some(x), Some(y)) => join_compound(TypeLayer::Mapping(x, y)),
                _ => None,
            },
            TypeDef::Tuple(items) => {
                proof {
                    assert(self@ == TypeView::Tuple(type_views(items@)));
                    assert(decreases_to!(self@ => self@->Tuple_0));
                }
                let mut out: Vec<stellar_xdr::ScSpecTypeDef> = Vec::new();
                let mut i: usize = 0;
                while i < items.len()
                    invariant
                        i <= items@.len(),
                        out@.len() == i,
                        self@ == TypeView::Tuple(type_views(items@)),
                        decreases_to!(self@ => self@->Tuple_0),
                        forall|k: int|
                            0 <= k < i ==> type_held(#[trigger] out@[k]) == type_views(items@)[k],
                        forall|k: int| 0 <= k < i ==> type_fits(#[trigger] type_views(items@)[k]),
                    decreases items@.len() - i,
                {
                    proof {
                        assert(self@->Tuple_0[i as int] == items@[i as int]@);
                    }
                    match items[i].to_xdr() {
                        Some(x) => out.push(x),
                        None => {
                            assert(!type_fits(type_views(items@)[i as int]));
                            return None;
                        },
                    }
                    i += 1;
                }
                assert(held_types(out@) =~= type_views(items@));
                join_compound(TypeLayer::Tuple(out))
            },
            _ => match join_numeric(self) {
                Some(x) => Some(x),
                None => join_plain(self),
            },
        }
    }

    /// The debug notation; nothing for a type beyond the limits of the wire
    /// format.
    pub fn to_debug(&self) -> (r: String)
        ensures
            r@ == if type_fits(self@) {
                type_debug(self@)
            } else {
                ""@
            },
    {
        match self.to_xdr() {
            Some(x) => debug_xdr_type(&x),
            None => "".to_owned(),
        }
    }
}

/// Reads types one by one.
fn types_from_xdr(items: Vec<stellar_xdr::ScSpecTypeDef>) -> (r: Vec<TypeDef>)
    ensures
        type_views(r@) == held_types(items@),
{
    let ghost all = items@;
    let mut out: Vec<TypeDef> = Vec::new();
    for item in it: items
        invariant
            it.seq() == all,
            out@.len() == it.index(),
            forall|k: int| 0 <= k < it.index() ==> (#[trigger] out@[k])@ == type_held(all[k]),
    {
        out.push(TypeDef::from_xdr(item));
    }
    assert(type_views(out@) =~= held_types(all));
    out
}

/// A parameter or a field whose type is still to be read.
pub struct FieldLayer {
    pub doc: String,
    pub name: String,
    pub type_: stellar_xdr::ScSpecTypeDef,
}

pub open spec fn held_fields(items: Seq<FieldLayer>) -> Seq<FieldView> {
    Seq::new(
        items.len(),
        |i: int|
            FieldView {
                doc: items[i].doc@,
                name: items[i].name@,
                type_: type_held(items[i].type_),
            },
    )
}

/// A union's case whose types are still to be read.
pub struct CaseLayer {
    pub doc: String,
    pub name: String,
    pub types: Option<Vec<stellar_xdr::ScSpecTypeDef>>,
}

pub open spec fn held_cases(items: Seq<CaseLayer>) -> Seq<UnionCaseView> {
    Seq::new(
        items.len(),
        |i: int|
            UnionCaseView {
                doc: items[i].doc@,
                name: items[i].name@,
                types: match items[i].types {
                    Some(types) => Some(held_types(types@)),
                    None => None,
                },
            },
    )
}

/// One layer of an entry: its types are still to be read.
pub enum EntryLayer {
    Function(String, String, Vec<FieldLayer>, Vec<stellar_xdr::ScSpecTypeDef>),
    Struct(String, String, Vec<FieldLayer>),
    Union(String, String, Vec<CaseLayer>),
    Enum(EnumDef),
    ErrorEnum(EnumDef),
    Event,
}

impl EntryLayer {
    pub open spec fn held(self) -> SpecEntryView {
        match self {
            EntryLayer::Function(doc, name, inputs, outputs) => SpecEntryView::Function(
                FunctionView {
                    doc: doc@,
                    name: name@,
                    inputs: held_fields(inputs@),
                    outputs: held_types(outputs@),
                },
            ),
            EntryLayer::Struct(doc, name, fields) => SpecEntryView::Struct(
                StructView { doc: doc@, name: name@, fields: held_fields(fields@) },
            ),
            EntryLayer::Union(doc, name, cases) => SpecEntryView::Union(
                UnionView { doc: doc@, name: name@, cases: held_cases(cases@) },
            ),
            EntryLayer::Enum(e) => SpecEntryView::Enum(e@),
            EntryLayer::ErrorEnum(e) => SpecEntryView::ErrorEnum(e@),
            EntryLayer::Event => SpecEntryView::Event,
        }
    }
}

/// Takes a function's `stellar_xdr::ScSpecEntry` apart, its texts by
/// `StringM::to_utf8_string_lossy`; hands any other back.
#[verifier::external_body]
fn split_function(e: stellar_xdr::ScSpecEntry) -> (r: Result<EntryLayer, stellar_xdr::ScSpecEntry>)
    ensures
        match r {
            Ok(layer) => layer.held() == entry_held(e),
            Err(o) => o == e && !(entry_held(e) is Function),
        },
{
    Ok(match e {
        OutEntry::FunctionV0(f) => EntryLayer::Function(
            f.doc.to_utf8_string_lossy(),
            f.name.0.to_utf8_string_lossy(),
            f.inputs.into_iter().map(|i| FieldLayer {
                doc: i.doc.to_utf8_string_lossy(),
                name: i.name.to_utf8_string_lossy(),
                type_: i.type_,
            }).collect(),
            f.outputs.into(),
        ),
        other => return Err(other),
    })
}

/// Takes a struct's `stellar_xdr::ScSpecEntry` apart, its texts by
/// `StringM::to_utf8_string_lossy`; hands any other back.
#[verifier::external_body]
fn split_struct(e: stellar_xdr::ScSpecEntry) -> (r: Result<EntryLayer, stellar_xdr::ScSpecEntry>)
    ensures
        match r {
            Ok(layer) => layer.held() == entry_held(e),
            Err(o) => o == e && !(entry_held(e) is Struct),
        },
{
    Ok(match e {
        OutEntry::UdtStructV0(s) => EntryLayer::Struct(
            s.doc.to_utf8_string_lossy(),
            s.name.to_utf8_string_lossy(),
            s.fields.into_iter().map(|f| FieldLayer {
                doc: f.doc.to_utf8_string_lossy(),
                name: f.name.to_utf8_string_lossy(),
                type_: f.type_,
            }).collect(),
        ),
        other => return Err(other),
    })
}

/// Takes a union's `stellar_xdr::ScSpecEntry` apart, its texts by
/// `StringM::to_utf8_string_lossy`; hands any other back.
#[verifier::external_body]
fn split_union(e: stellar_xdr::ScSpecEntry) -> (r: Result<EntryLayer, stellar_xdr::ScSpecEntry>)
    ensures
        match r {
            Ok(layer) => layer.held() == entry_held(e),
            Err(o) => o == e && !(entry_held(e) is Union),
        },
{
    Ok(match e {
        OutEntry::UdtUnionV0(u) => EntryLayer::Union(
            u.doc.to_utf8_string_lossy(),
            u.name.to_utf8_string_lossy(),
            u.cases.into_iter().map(|c| match c {
                OutCase::VoidV0(v) => CaseLayer { doc: v.doc.to_utf8_string_lossy(),
                    name: v.name.to_utf8_string_lossy(), types: None },
                OutCase::TupleV0(t) => CaseLayer { doc: t.doc.to_utf8_string_lossy(),
                    name: t.name.to_utf8_string_lossy(), types: Some(t.type_.into()) },
            }).collect(),
        ),
        other => return Err(other),
    })
}

/// Takes an enum's `stellar_xdr::ScSpecEntry` apart, its texts by
/// `StringM::to_utf8_string_lossy`; hands any other back.
#[verifier::external_body]
fn split_enum(e: stellar_xdr::ScSpecEntry) -> (r: Result<EntryLayer, stellar_xdr::ScSpecEntry>)
    ensures
        match r {
            Ok(layer) => layer.held() == entry_held(e),
            Err(o) => o == e && !(entry_held(e) is Enum),
        },
{
    Ok(match e {
        OutEntry::UdtEnumV0(e) => EntryLayer::Enum(EnumDef {
            doc: e.doc.to_utf8_string_lossy(),
            name: e.name.to_utf8_string_lossy(),
            cases: e.cases.into_iter().map(|c| EnumCase {
                doc: c.doc.to_utf8_string_lossy(),
                name: c.name.to_utf8_string_lossy(),
                value: c.value,
            }).collect(),
        }),
        other => return Err(other),
    })
}

/// Takes the `stellar_xdr::ScSpecEntry` of an enum of errors or of an event
/// apart, its texts by `StringM::to_utf8_string_lossy`; has nothing for any other.
#[verifier::external_body]
fn split_rest(e: stellar_xdr::ScSpecEntry) -> (r: Option<EntryLayer>)
    ensures
        match r {
            Some(layer) => layer.held() == entry_held(e),
            None => !(entry_held(e) is ErrorEnum) && !(entry_held(e) is Event),
        },
{
    Some(match e {
        OutEntry::UdtErrorEnumV0(e) => EntryLayer::ErrorEnum(EnumDef {
            doc: e.doc.to_utf8_string_lossy(),
            name: e.name.to_utf8_string_lossy(),
            cases: e.cases.into_iter().map(|c| EnumCase {
                doc: c.doc.to_utf8_string_lossy(),
                name: c.name.to_utf8_string_lossy(),
                value: c.value,
            }).collect(),
        }),
        OutEntry::EventV0(_) => EntryLayer::Event,
        _ => return None,
    })
}

/// Reads the types of fields.
fn fields_from_layers(items: Vec<FieldLayer>) -> (r: Vec<Field>)
    ensures
        field_views(r@) == held_fields(items@),
{
    let ghost all = items@;
    let mut out: Vec<Field> = Vec::new();
    for item in it: items
        invariant
            it.seq() == all,
            out@.len() == it.index(),
            forall|k: int| 0 <= k < it.index() ==> (#[trigger] out@[k])@ == held_fields(all)[k],
    {
        out.push(Field { doc: item.doc, name: item.name, type_: TypeDef::from_xdr(item.type_) });
    }
    assert(field_views(out@) =~= held_fields(all));
    out
}

/// Reads the types of a union's cases.
fn cases_from_layers(items: Vec<CaseLayer>) -> (r: Vec<UnionCase>)
    ensures
        union_case_views(r@) == held_cases(items@),
{
    let ghost all = items@;
    let mut out: Vec<UnionCase> = Vec::new();
    for item in it: items
        invariant
            it.seq() == all,
            out@.len() == it.index(),
            forall|k: int| 0 <= k < it.index() ==> (#[trigger] out@[k])@ == held_cases(all)[k],
    {
        let types = match item.types {
            Some(types) => Some(types_from_xdr(types)),
            None => None,
        };
        out.push(UnionCase { doc: item.doc, name: item.name, types });
    }
    assert(union_case_views(out@) =~= held_cases(all));
    out
}

impl SpecEntry {
    fn from_layer(layer: EntryLayer) -> (r: SpecEntry)
        ensures
            r@ == layer.held(),
    {
        match layer {
            EntryLayer::Function(doc, name, inputs, outputs) => SpecEntry::Function(
                Function {
                    doc,
                    name,
                    inputs: fields_from_layers(inputs),
                    outputs: types_from_xdr(outputs),
                },
            ),
            EntryLayer::Struct(doc, name, fields) => SpecEntry::Struct(
                StructDef { doc, name, fields: fields_from_layers(fields) },
            ),
            EntryLayer::Union(doc, name, cases) => SpecEntry::Union(
                UnionDef { doc, name, cases: cases_from_layers(cases) },
            ),
            EntryLayer::Enum(e) => SpecEntry::Enum(e),
            EntryLayer::ErrorEnum(e) => SpecEntry::ErrorEnum(e),
            EntryLayer::Event => SpecEntry::Event,
        }
    }

    /// Reads a `stellar_xdr::ScSpecEntry`.
    pub fn from_xdr(e: stellar_xdr::ScSpecEntry) -> (r: SpecEntry)
        ensures
            r@ == entry_held(e),
    {
        let e1 = match split_function(e) {
            Ok(layer) => return SpecEntry::from_layer(layer),
            Err(o) => o,
        };
        let e2 = match split_struct(e1) {
            Ok(layer) => return SpecEntry::from_layer(layer),
            Err(o) => o,
        };
        let e3 = match split_union(e2) {
            Ok(layer) => return SpecEntry::from_layer(layer),
            Err(o) => o,
        };
        let e4 = match split_enum(e3) {
            Ok(layer) => return SpecEntry::from_layer(layer),
            Err(o) => o,
        };
        match split_rest(e4) {
            Some(layer) => SpecEntry::from_layer(layer),
            None => {
                assert(false);
                SpecEntry::Event
            },
        }
    }
}

pub open spec fn held_entries(items: Seq<stellar_xdr::ScSpecEntry>) -> Seq<SpecEntryView> {
    Seq::new(items.len(), |i: int| entry_held(items[i]))
}

/// The entries that bytes hold on the wire one after another, or what is wrong
/// with the bytes.
pub uninterp spec fn entries_of(data: Seq<u8>) -> Result<Seq<SpecEntryView>, Seq<char>>;

/// `ReadXdr::read_xdr_iter` of `stellar_xdr::ScSpecEntry` up to the end of the
/// bytes or to the first failure, without limits.
#[verifier::external_body]
fn read_entries(data: &[u8]) -> (r: Result<Vec<stellar_xdr::ScSpecEntry>, String>)
    ensures
        match r {
            Ok(items) => entries_of(data@) == Ok::<Seq<SpecEntryView>, Seq<char>>(
                held_entries(items@),
            ),
            Err(e) => entries_of(data@) == Err::<Seq<SpecEntryView>, Seq<char>>(e@),
        },
{
    let mut limited = stellar_xdr::Limited::new(
        std::io::Cursor::new(data),
        stellar_xdr::Limits::none(),
    );
    <OutEntry as stellar_xdr::ReadXdr>::read_xdr_iter(&mut limited)
        .collect::<Result<Vec<_>, _>>()
        .map_err(|e| e.to_string())
}

/// Reads the entries in the bytes of a contract's interface section.
pub fn decode_entries(data: &[u8]) -> (r: Result<Vec<SpecEntry>, String>)
    ensures
        match r {
            Ok(items) => entries_of(data@) == Ok::<Seq<SpecEntryView>, Seq<char>>(
                entry_views(items@),
            ),
            Err(e) => entries_of(data@) == Err::<Seq<SpecEntryView>, Seq<char>>(e@),
        },
{
    match read_entries(data) {
        Ok(items) => {
            let ghost all = items@;
            let mut out: Vec<SpecEntry> = Vec::new();
            for item in it: items
                invariant
                    it.seq() == all,
                    out@.len() == it.index(),
                    forall|k: int|
                        0 <= k < it.index() ==> (#[trigger] out@[k])@ == entry_held(all[k]),
            {
                out.push(SpecEntry::from_xdr(item));
            }
            assert(entry_views(out@) =~= held_entries(all));
            Ok(out)
        },
        Err(e) => Err(e),
    }
}

/// A part of a WASM module: a custom section with its name and bytes, another
/// part, or a place at which the module is malformed.
#[derive(Debug, PartialEq)]
pub enum WasmPart {
    Custom(String, Vec<u8>),
    Other,
    Malformed,
}

pub enum WasmPartView {
    Custom(Seq<char>, Seq<u8>),
    Other,
    Malformed,
}

impl View for WasmPart {
    type V = WasmPartView;

    open spec fn view(&self) -> WasmPartView {
        match *self {
            WasmPart::Custom(name, data) => WasmPartView::Custom(name@, data@),
            WasmPart::Other => WasmPartView::Other,
            WasmPart::Malformed => WasmPartView::Malformed,
        }
    }
}

pub open spec fn part_views(items: Seq<WasmPart>) -> Seq<WasmPartView> {
    Seq::new(items.len(), |i: int| items[i]@)
}

/// The parts of a WASM module in their order.
pub uninterp spec fn wasm_parts_of(wasm: Seq<u8>) -> Seq<WasmPartView>;

/// `wasmparser::Parser::parse_all` from the start of the bytes, each payload by
/// its kind.
#[verifier::external_body]
pub(crate) fn wasm_parts(wasm: &[u8]) -> (r: Vec<WasmPart>)
    ensures
        part_views(r@) == wasm_parts_of(wasm@),
{
    wasmparser::Parser::new(0).parse_all(wasm).map(|payload| match payload {
        Ok(wasmparser::Payload::CustomSection(s)) => WasmPart::Custom(
            s.name().to_string(),
            s.data().to_vec(),
        ),
        Ok(_) => WasmPart::Other,
        Err(_) => WasmPart::Malformed,
    }).collect()
}

} // verus!
