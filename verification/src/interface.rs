//! The parts of a contract's interface: types, functions and the types that
//! the contract defines.

use vstd::prelude::*;

use crate::text::text_eq;

verus! {

/// A type in a contract's interface. A user-defined type is named by the bytes
/// of its name.
#[derive(Debug, PartialEq)]
pub enum TypeDef {
    Val,
    Bool,
    Void,
    Error,
    U32,
    I32,
    U64,
    I64,
    Timepoint,
    Duration,
    U128,
    I128,
    U256,
    I256,
    Bytes,
    String,
    Symbol,
    Address,
    MuxedAddress,
    Option(Box<TypeDef>),
    Result(Box<TypeDef>, Box<TypeDef>),
    Vec(Box<TypeDef>),
    Mapping(Box<TypeDef>, Box<TypeDef>),
    Tuple(Vec<TypeDef>),
    BytesN(u32),
    Udt(Vec<u8>),
}

/// What a [`TypeDef`] stands for.
pub enum TypeView {
    Val,
    Bool,
    Void,
    Error,
    U32,
    I32,
    U64,
    I64,
    Timepoint,
    Duration,
    U128,
    I128,
    U256,
    I256,
    Bytes,
    String,
    Symbol,
    Address,
    MuxedAddress,
    Option(Box<TypeView>),
    Result(Box<TypeView>, Box<TypeView>),
    Vec(Box<TypeView>),
    Mapping(Box<TypeView>, Box<TypeView>),
    Tuple(Seq<TypeView>),
    BytesN(u32),
    Udt(Seq<u8>),
}

pub open spec fn type_view(t: TypeDef) -> TypeView
    decreases t,
{
    match t {
        TypeDef::Val => TypeView::Val,
        TypeDef::Bool => TypeView::Bool,
        TypeDef::Void => TypeView::Void,
        TypeDef::Error => TypeView::Error,
        TypeDef::U32 => TypeView::U32,
        TypeDef::I32 => TypeView::I32,
        TypeDef::U64 => TypeView::U64,
        TypeDef::I64 => TypeView::I64,
        TypeDef::Timepoint => TypeView::Timepoint,
        TypeDef::Duration => TypeView::Duration,
        TypeDef::U128 => TypeView::U128,
        TypeDef::I128 => TypeView::I128,
        TypeDef::U256 => TypeView::U256,
        TypeDef::I256 => TypeView::I256,
        TypeDef::Bytes => TypeView::Bytes,
        TypeDef::String => TypeView::String,
        TypeDef::Symbol => TypeView::Symbol,
        TypeDef::Address => TypeView::Address,
        TypeDef::MuxedAddress => TypeView::MuxedAddress,
        TypeDef::Option(v) => TypeView::Option(Box::new(type_view(*v))),
        TypeDef::Result(o, e) => TypeView::Result(
            Box::new(type_view(*o)),
            Box::new(type_view(*e)),
        ),
        TypeDef::Vec(v) => TypeView::Vec(Box::new(type_view(*v))),
        TypeDef::Mapping(k, v) => TypeView::Mapping(
            Box::new(type_view(*k)),
            Box::new(type_view(*v)),
        ),
        TypeDef::Tuple(items) => TypeView::Tuple(type_views(items@)),
        TypeDef::BytesN(n) => TypeView::BytesN(n),
        TypeDef::Udt(name) => TypeView::Udt(name@),
    }
}

pub open spec fn type_views(items: Seq<TypeDef>) -> Seq<TypeView>
    decreases items,
{
    Seq::new(
        items.len(),
        |i: int|
            if 0 <= i < items.len() {
                type_view(items[i])
            } else {
                arbitrary()
            },
    )
}

impl View for TypeDef {
    type V = TypeView;

    open spec fn view(&self) -> TypeView {
        type_view(*self)
    }
}

/// A parameter of a function or a field of a struct.
#[derive(Debug, PartialEq)]
pub struct Field {
    pub doc: String,
    pub name: String,
    pub type_: TypeDef,
}

pub struct FieldView {
    pub doc: Seq<char>,
    pub name: Seq<char>,
    pub type_: TypeView,
}

impl View for Field {
    type V = FieldView;

    open spec fn view(&self) -> FieldView {
        FieldView { doc: self.doc@, name: self.name@, type_: self.type_@ }
    }
}

pub open spec fn field_views(items: Seq<Field>) -> Seq<FieldView> {
    Seq::new(items.len(), |i: int| items[i]@)
}

/// A function of a contract.
#[derive(Debug, PartialEq)]
pub struct Function {
    pub doc: String,
    pub name: String,
    pub inputs: Vec<Field>,
    pub outputs: Vec<TypeDef>,
}

pub struct FunctionView {
    pub doc: Seq<char>,
    pub name: Seq<char>,
    pub inputs: Seq<FieldView>,
    pub outputs: Seq<TypeView>,
}

impl View for Function {
    type V = FunctionView;

    open spec fn view(&self) -> FunctionView {
        FunctionView {
            doc: self.doc@,
            name: self.name@,
            inputs: field_views(self.inputs@),
            outputs: type_views(self.outputs@),
        }
    }
}

pub open spec fn function_views(items: Seq<Function>) -> Seq<FunctionView> {
    Seq::new(items.len(), |i: int| items[i]@)
}

/// A struct that a contract defines.
#[derive(Debug, PartialEq)]
pub struct StructDef {
    pub doc: String,
    pub name: String,
    pub fields: Vec<Field>,
}

pub struct StructView {
    pub doc: Seq<char>,
    pub name: Seq<char>,
    pub fields: Seq<FieldView>,
}

impl View for StructDef {
    type V = StructView;

    open spec fn view(&self) -> StructView {
        StructView { doc: self.doc@, name: self.name@, fields: field_views(self.fields@) }
    }
}

pub open spec fn struct_views(items: Seq<StructDef>) -> Seq<StructView> {
    Seq::new(items.len(), |i: int| items[i]@)
}

/// A case of a union: `types` is present where the case carries values.
#[derive(Debug, PartialEq)]
pub struct UnionCase {
    pub doc: String,
    pub name: String,
    pub types: Option<Vec<TypeDef>>,
}

pub struct UnionCaseView {
    pub doc: Seq<char>,
    pub name: Seq<char>,
    pub types: Option<Seq<TypeView>>,
}

impl View for UnionCase {
    type V = UnionCaseView;

    open spec fn view(&self) -> UnionCaseView {
        UnionCaseView {
            doc: self.doc@,
            name: self.name@,
            types: match self.types {
                Some(types) => Some(type_views(types@)),
                None => None,
            },
        }
    }
}

pub open spec fn union_case_views(items: Seq<UnionCase>) -> Seq<UnionCaseView> {
    Seq::new(items.len(), |i: int| items[i]@)
}

/// A union that a contract defines.
#[derive(Debug, PartialEq)]
pub struct UnionDef {
    pub doc: String,
    pub name: String,
    pub cases: Vec<UnionCase>,
}

pub struct UnionView {
    pub doc: Seq<char>,
    pub name: Seq<char>,
    pub cases: Seq<UnionCaseView>,
}

impl View for UnionDef {
    type V = UnionView;

    open spec fn view(&self) -> UnionView {
        UnionView { doc: self.doc@, name: self.name@, cases: union_case_views(self.cases@) }
    }
}

pub open spec fn union_views(items: Seq<UnionDef>) -> Seq<UnionView> {
    Seq::new(items.len(), |i: int| items[i]@)
}

/// A case of an enum.
#[derive(Debug, PartialEq)]
pub struct EnumCase {
    pub doc: String,
    pub name: String,
    pub value: u32,
}

pub struct EnumCaseView {
    pub doc: Seq<char>,
    pub name: Seq<char>,
    pub value: u32,
}

impl View for EnumCase {
    type V = EnumCaseView;

    open spec fn view(&self) -> EnumCaseView {
        EnumCaseView { doc: self.doc@, name: self.name@, value: self.value }
    }
}

pub open spec fn enum_case_views(items: Seq<EnumCase>) -> Seq<EnumCaseView> {
    Seq::new(items.len(), |i: int| items[i]@)
}

/// An enum, or an enum of errors, that a contract defines.
#[derive(Debug, PartialEq)]
pub struct EnumDef {
    pub doc: String,
    pub name: String,
    pub cases: Vec<EnumCase>,
}

pub struct EnumView {
    pub doc: Seq<char>,
    pub name: Seq<char>,
    pub cases: Seq<EnumCaseView>,
}

impl View for EnumDef {
    type V = EnumView;

    open spec fn view(&self) -> EnumView {
        EnumView { doc: self.doc@, name: self.name@, cases: enum_case_views(self.cases@) }
    }
}

pub open spec fn enum_views(items: Seq<EnumDef>) -> Seq<EnumView> {
    Seq::new(items.len(), |i: int| items[i]@)
}

/// An entry of a contract's interface.
#[derive(Debug, PartialEq)]
pub enum SpecEntry {
    Function(Function),
    Struct(StructDef),
    Union(UnionDef),
    Enum(EnumDef),
    ErrorEnum(EnumDef),
    Event,
}

pub enum SpecEntryView {
    Function(FunctionView),
    Struct(StructView),
    Union(UnionView),
    Enum(EnumView),
    ErrorEnum(EnumView),
    Event,
}

impl View for SpecEntry {
    type V = SpecEntryView;

    open spec fn view(&self) -> SpecEntryView {
        match *self {
            SpecEntry::Function(f) => SpecEntryView::Function(f@),
            SpecEntry::Struct(s) => SpecEntryView::Struct(s@),
            SpecEntry::Union(u) => SpecEntryView::Union(u@),
            SpecEntry::Enum(e) => SpecEntryView::Enum(e@),
            SpecEntry::ErrorEnum(e) => SpecEntryView::ErrorEnum(e@),
            SpecEntry::Event => SpecEntryView::Event,
        }
    }
}

pub open spec fn entry_views(items: Seq<SpecEntry>) -> Seq<SpecEntryView> {
    Seq::new(items.len(), |i: int| items[i]@)
}

/// The first place of `name` among names, or their number if it is not there.
pub open spec fn name_index(names: Seq<Seq<char>>, name: Seq<char>) -> int {
    name_index_from(names, name, 0)
}

pub open spec fn name_index_from(names: Seq<Seq<char>>, name: Seq<char>, i: int) -> int
    decreases names.len() - i,
{
    if i < 0 || i >= names.len() {
        names.len() as int
    } else if names[i] == name {
        i
    } else {
        name_index_from(names, name, i + 1)
    }
}

/// The place that `name_index` gives is the first of its name.
pub proof fn lemma_name_index(names: Seq<Seq<char>>, name: Seq<char>, i: int)
    requires
        0 <= i <= names.len(),
    ensures
        i <= name_index_from(names, name, i) <= names.len(),
        name_index_from(names, name, i) < names.len() ==> names[name_index_from(names, name, i)]
            == name,
        forall|k: int|
            i <= k < name_index_from(names, name, i) ==> #[trigger] names[k] != name,
    decreases names.len() - i,
{
    if i < names.len() && names[i] != name {
        lemma_name_index(names, name, i + 1);
    }
}

/// Something that has a name.
pub trait Named {
    spec fn named(&self) -> Seq<char>;

    fn label(&self) -> (r: &str)
        ensures
            r@ == self.named(),
    ;
}

pub open spec fn labels<T: Named>(items: Seq<T>) -> Seq<Seq<char>> {
    Seq::new(items.len(), |i: int| items[i].named())
}

/// Finds the first item of a name.
pub fn find_named<T: Named>(items: &Vec<T>, name: &str) -> (r: Option<usize>)
    ensures
        match r {
            Some(i) => i < items@.len() && i == name_index(labels(items@), name@),
            None => name_index(labels(items@), name@) == items@.len(),
        },
{
    let mut i: usize = 0;
    while i < items.len()
        invariant
            i <= items@.len(),
            name_index(labels(items@), name@) == name_index_from(
                labels(items@),
                name@,
                i as int,
            ),
        decreases items@.len() - i,
    {
        assert(labels(items@)[i as int] == items@[i as int].named());
        if text_eq(items[i].label(), name) {
            return Some(i);
        }
        i += 1;
    }
    None
}

impl Named for Function {
    open spec fn named(&self) -> Seq<char> {
        self.name@
    }

    fn label(&self) -> &str {
        self.name.as_str()
    }
}

impl Named for StructDef {
    open spec fn named(&self) -> Seq<char> {
        self.name@
    }

    fn label(&self) -> &str {
        self.name.as_str()
    }
}

impl Named for UnionDef {
    open spec fn named(&self) -> Seq<char> {
        self.name@
    }

    fn label(&self) -> &str {
        self.name.as_str()
    }
}

impl Named for UnionCase {
    open spec fn named(&self) -> Seq<char> {
        self.name@
    }

    fn label(&self) -> &str {
        self.name.as_str()
    }
}

impl Named for EnumCase {
    open spec fn named(&self) -> Seq<char> {
        self.name@
    }

    fn label(&self) -> &str {
        self.name.as_str()
    }
}

impl Named for EnumDef {
    open spec fn named(&self) -> Seq<char> {
        self.name@
    }

    fn label(&self) -> &str {
        self.name.as_str()
    }
}

} // verus!
