//! A contract's interface: read out of its WASM module, and looked up by name.

use vstd::prelude::*;

use crate::error::Failure;
use crate::interface::entry_views;
use crate::interface::enum_case_views;
use crate::interface::enum_views;
use crate::interface::find_named;
use crate::interface::function_views;
use crate::interface::labels;
use crate::interface::lemma_name_index;
use crate::interface::name_index;
use crate::interface::struct_views;
use crate::interface::union_case_views;
use crate::interface::union_views;
use crate::interface::EnumCase;
use crate::interface::EnumCaseView;
use crate::interface::EnumDef;
use crate::interface::EnumView;
use crate::interface::Function;
use crate::interface::FunctionView;
use crate::interface::SpecEntry;
use crate::interface::SpecEntryView;
use crate::interface::StructDef;
use crate::interface::StructView;
use crate::interface::UnionCase;
use crate::interface::UnionCaseView;
use crate::interface::UnionDef;
use crate::interface::UnionView;
use crate::text::cat2;
use crate::text::text_eq;
use crate::xdr_types::decode_entries;
use crate::xdr_types::entries_of;
use crate::xdr_types::part_views;
use crate::xdr_types::wasm_parts;
use crate::xdr_types::wasm_parts_of;
use crate::xdr_types::WasmPart;
use crate::xdr_types::WasmPartView;

verus! {

/// The bytes of the first section that holds a contract's interface, among the
/// parts from the `i`-th on; nothing if there is none. A malformed place before
/// it is a failure.
pub open spec fn section_from(parts: Seq<WasmPartView>, i: int) -> Result<Seq<u8>, Seq<char>>
    decreases parts.len() - i,
{
    if i < 0 || i >= parts.len() {
        Err(
            "WASM module has no `contractspecv0` custom section; it may not be a Soroban contract, or was built without contract metadata"@,
        )
    } else {
        match parts[i] {
            WasmPartView::Malformed => Err("failed parsing WASM module"@),
            WasmPartView::Custom(name, data) => if name == "contractspecv0"@ {
                Ok(data)
            } else {
                section_from(parts, i + 1)
            },
            WasmPartView::Other => section_from(parts, i + 1),
        }
    }
}

/// Finds the section that holds a contract's interface.
pub fn find_section(parts: &Vec<WasmPart>) -> (r: Result<&Vec<u8>, Failure>)
    ensures
        match r {
            Ok(data) => section_from(part_views(parts@), 0) == Ok::<Seq<u8>, Seq<char>>(data@),
            Err(e) => section_from(part_views(parts@), 0) == Err::<Seq<u8>, Seq<char>>(e@),
        },
{
    let mut i: usize = 0;
    while i < parts.len()
        invariant
            i <= parts@.len(),
            section_from(part_views(parts@), 0) == section_from(part_views(parts@), i as int),
        decreases parts@.len() - i,
    {
        assert(part_views(parts@)[i as int] == parts@[i as int]@);
        match &parts[i] {
            WasmPart::Malformed => return Err(Failure::of("failed parsing WASM module")),
            WasmPart::Custom(name, data) => if text_eq(name.as_str(), "contractspecv0") {
                return Ok(data);
            },
            WasmPart::Other => {},
        }
        i += 1;
    }
    Err(
        Failure::of(
            "WASM module has no `contractspecv0` custom section; it may not be a Soroban contract, or was built without contract metadata",
        ),
    )
}

/// The entries of the interface in a WASM module, or why there are none.
pub open spec fn wasm_entries(wasm: Seq<u8>) -> Result<Seq<SpecEntryView>, Seq<char>> {
    match section_from(wasm_parts_of(wasm), 0) {
        Err(e) => Err(e),
        Ok(data) => match entries_of(data) {
            Ok(entries) => Ok(entries),
            Err(e) => Err("failed decoding contract spec entries: "@ + e),
        },
    }
}

/// Reads the entries of the interface that a contract's WASM module holds in
/// its custom section `contractspecv0`.
pub fn read_spec_entries_from_wasm(wasm: &[u8]) -> (r: Result<Vec<SpecEntry>, Failure>)
    ensures
        match r {
            Ok(entries) => wasm_entries(wasm@) == Ok::<Seq<SpecEntryView>, Seq<char>>(
                entry_views(entries@),
            ),
            Err(e) => wasm_entries(wasm@) == Err::<Seq<SpecEntryView>, Seq<char>>(e@),
        },
{
    let parts = wasm_parts(wasm);
    match find_section(&parts) {
        Err(e) => Err(e),
        Ok(data) => match decode_entries(data.as_slice()) {
            Ok(entries) => Ok(entries),
            Err(e) => Err(
                Failure::new(cat2("failed decoding contract spec entries: ", e.as_str())),
            ),
        },
    }
}

/// A contract's interface. In each table of user-defined types no name occurs
/// twice.
#[derive(Debug, PartialEq)]
pub struct ContractSpec {
    pub functions: Vec<Function>,
    pub structs: Vec<StructDef>,
    pub unions: Vec<UnionDef>,
    pub enums: Vec<EnumDef>,
    pub error_enums: Vec<EnumDef>,
}

/// What a [`ContractSpec`] stands for.
#[verifier::ext_equal]
pub struct SpecView {
    pub functions: Seq<FunctionView>,
    pub structs: Seq<StructView>,
    pub unions: Seq<UnionView>,
    pub enums: Seq<EnumView>,
    pub error_enums: Seq<EnumView>,
}

impl View for ContractSpec {
    type V = SpecView;

    open spec fn view(&self) -> SpecView {
        SpecView {
            functions: function_views(self.functions@),
            structs: struct_views(self.structs@),
            unions: union_views(self.unions@),
            enums: enum_views(self.enums@),
            error_enums: enum_views(self.error_enums@),
        }
    }
}

pub open spec fn function_names(items: Seq<FunctionView>) -> Seq<Seq<char>> {
    Seq::new(items.len(), |i: int| items[i].name)
}

pub open spec fn struct_names(items: Seq<StructView>) -> Seq<Seq<char>> {
    Seq::new(items.len(), |i: int| items[i].name)
}

pub open spec fn union_names(items: Seq<UnionView>) -> Seq<Seq<char>> {
    Seq::new(items.len(), |i: int| items[i].name)
}

pub open spec fn enum_names(items: Seq<EnumView>) -> Seq<Seq<char>> {
    Seq::new(items.len(), |i: int| items[i].name)
}

pub open spec fn union_case_names(items: Seq<UnionCaseView>) -> Seq<Seq<char>> {
    Seq::new(items.len(), |i: int| items[i].name)
}

pub open spec fn enum_case_names(items: Seq<EnumCaseView>) -> Seq<Seq<char>> {
    Seq::new(items.len(), |i: int| items[i].name)
}

/// Whether no name occurs twice.
pub open spec fn distinct(names: Seq<Seq<char>>) -> bool {
    forall|i: int, j: int|
        0 <= i < j < names.len() ==> #[trigger] names[i] != #[trigger] names[j]
}

impl SpecView {
    /// Whether no table of user-defined types has a name twice.
    pub open spec fn well_formed(self) -> bool {
        &&& distinct(struct_names(self.structs))
        &&& distinct(union_names(self.unions))
        &&& distinct(enum_names(self.enums))
        &&& distinct(enum_names(self.error_enums))
    }

    pub open spec fn find_function(self, name: Seq<char>) -> Option<FunctionView> {
        let i = name_index(function_names(self.functions), name);
        if 0 <= i < self.functions.len() {
            Some(self.functions[i])
        } else {
            None
        }
    }

    pub open spec fn find_struct(self, name: Seq<char>) -> Option<StructView> {
        let i = name_index(struct_names(self.structs), name);
        if 0 <= i < self.structs.len() {
            Some(self.structs[i])
        } else {
            None
        }
    }

    pub open spec fn find_union(self, name: Seq<char>) -> Option<UnionView> {
        let i = name_index(union_names(self.unions), name);
        if 0 <= i < self.unions.len() {
            Some(self.unions[i])
        } else {
            None
        }
    }

    pub open spec fn find_enum(self, name: Seq<char>) -> Option<EnumView> {
        let i = name_index(enum_names(self.enums), name);
        if 0 <= i < self.enums.len() {
            Some(self.enums[i])
        } else {
            None
        }
    }

    pub open spec fn find_error_enum(self, name: Seq<char>) -> Option<EnumView> {
        let i = name_index(enum_names(self.error_enums), name);
        if 0 <= i < self.error_enums.len() {
            Some(self.error_enums[i])
        } else {
            None
        }
    }

    pub open spec fn find_union_case(
        self,
        union_name: Seq<char>,
        case_name: Seq<char>,
    ) -> Option<UnionCaseView> {
        match self.find_union(union_name) {
            None => None,
            Some(u) => {
                let i = name_index(union_case_names(u.cases), case_name);
                if 0 <= i < u.cases.len() {
                    Some(u.cases[i])
                } else {
                    None
                }
            },
        }
    }
}

/// The table with a struct in the place of the one of its name, or at the end.
pub open spec fn with_struct(t: Seq<StructView>, s: StructView) -> Seq<StructView> {
    let i = name_index(struct_names(t), s.name);
    if 0 <= i < t.len() {
        t.update(i, s)
    } else {
        t.push(s)
    }
}

/// The table with a union in the place of the one of its name, or at the end.
pub open spec fn with_union(t: Seq<UnionView>, u: UnionView) -> Seq<UnionView> {
    let i = name_index(union_names(t), u.name);
    if 0 <= i < t.len() {
        t.update(i, u)
    } else {
        t.push(u)
    }
}

/// The table with an enum in the place of the one of its name, or at the end.
pub open spec fn with_enum(t: Seq<EnumView>, e: EnumView) -> Seq<EnumView> {
    let i = name_index(enum_names(t), e.name);
    if 0 <= i < t.len() {
        t.update(i, e)
    } else {
        t.push(e)
    }
}

/// An interface with one entry more.
pub open spec fn with_entry(spec: SpecView, entry: SpecEntryView) -> SpecView {
    match entry {
        SpecEntryView::Function(f) => SpecView { functions: spec.functions.push(f), ..spec },
        SpecEntryView::Struct(s) => SpecView { structs: with_struct(spec.structs, s), ..spec },
        SpecEntryView::Union(u) => SpecView { unions: with_union(spec.unions, u), ..spec },
        SpecEntryView::Enum(e) => SpecView { enums: with_enum(spec.enums, e), ..spec },
        SpecEntryView::ErrorEnum(e) => SpecView {
            error_enums: with_enum(spec.error_enums, e),
            ..spec
        },
        SpecEntryView::Event => spec,
    }
}

/// The interface with no entries.
pub open spec fn empty_spec() -> SpecView {
    SpecView {
        functions: Seq::empty(),
        structs: Seq::empty(),
        unions: Seq::empty(),
        enums: Seq::empty(),
        error_enums: Seq::empty(),
    }
}

/// The interface that the first `n` entries make.
pub open spec fn gathered(entries: Seq<SpecEntryView>, n: int) -> SpecView
    decreases n,
{
    if n <= 0 {
        empty_spec()
    } else {
        with_entry(gathered(entries, n - 1), entries[n - 1])
    }
}

fn put_struct(items: &mut Vec<StructDef>, s: StructDef)
    ensures
        struct_views(final(items)@) == with_struct(struct_views(old(items)@), s@),
{
    let ghost before = struct_views(items@);
    assert(labels(items@) =~= struct_names(before));
    match find_named(items, s.name.as_str()) {
        Some(i) => items.set(i, s),
        None => items.push(s),
    }
    assert(struct_views(items@) =~= with_struct(before, s@));
}

fn put_union(items: &mut Vec<UnionDef>, u: UnionDef)
    ensures
        union_views(final(items)@) == with_union(union_views(old(items)@), u@),
{
    let ghost before = union_views(items@);
    assert(labels(items@) =~= union_names(before));
    match find_named(items, u.name.as_str()) {
        Some(i) => items.set(i, u),
        None => items.push(u),
    }
    assert(union_views(items@) =~= with_union(before, u@));
}

fn put_enum(items: &mut Vec<EnumDef>, e: EnumDef)
    ensures
        enum_views(final(items)@) == with_enum(enum_views(old(items)@), e@),
{
    let ghost before = enum_views(items@);
    assert(labels(items@) =~= enum_names(before));
    match find_named(items, e.name.as_str()) {
        Some(i) => items.set(i, e),
        None => items.push(e),
    }
    assert(enum_views(items@) =~= with_enum(before, e@));
}

impl ContractSpec {
    /// Gathers the entries of an interface. Of two types with the same name and
    /// of the same kind the later one counts; events are left out.
    pub fn from_entries(entries: Vec<SpecEntry>) -> (r: ContractSpec)
        ensures
            r@ == gathered(entry_views(entries@), entries@.len() as int),
            r@.well_formed(),
    {
        let ghost all = entries@;
        let ghost shown = entry_views(entries@);
        let mut functions: Vec<Function> = Vec::new();
        let mut structs: Vec<StructDef> = Vec::new();
        let mut unions: Vec<UnionDef> = Vec::new();
        let mut enums: Vec<EnumDef> = Vec::new();
        let mut error_enums: Vec<EnumDef> = Vec::new();
        assert(function_views(functions@) =~= gathered(shown, 0).functions);
        assert(struct_views(structs@) =~= gathered(shown, 0).structs);
        assert(union_views(unions@) =~= gathered(shown, 0).unions);
        assert(enum_views(enums@) =~= gathered(shown, 0).enums);
        assert(enum_views(error_enums@) =~= gathered(shown, 0).error_enums);
        for entry in it: entries
            invariant
                it.seq() == all,
                shown == entry_views(all),
                function_views(functions@) == gathered(shown, it.index()).functions,
                struct_views(structs@) == gathered(shown, it.index()).structs,
                union_views(unions@) == gathered(shown, it.index()).unions,
                enum_views(enums@) == gathered(shown, it.index()).enums,
                enum_views(error_enums@) == gathered(shown, it.index()).error_enums,
        {
            let ghost done = gathered(shown, it.index());
            proof {
                assert(shown[it.index()] == entry@);
                assert(gathered(shown, it.index() + 1) == with_entry(done, entry@));
            }
            match entry {
                SpecEntry::Function(f) => {
                    functions.push(f);
                    assert(function_views(functions@) =~= done.functions.push(f@));
                },
                SpecEntry::Struct(s) => put_struct(&mut structs, s),
                SpecEntry::Union(u) => put_union(&mut unions, u),
                SpecEntry::Enum(e) => put_enum(&mut enums, e),
                SpecEntry::ErrorEnum(e) => put_enum(&mut error_enums, e),
                SpecEntry::Event => {},
            }
        }
        proof {
            lemma_gathered_well_formed(shown, shown.len() as int);
        }
        ContractSpec { functions, structs, unions, enums, error_enums }
    }

    /// The first function of a name.
    pub fn function(&self, name: &str) -> (r: Option<&Function>)
        ensures
            match r {
                Some(f) => self@.find_function(name@) == Some(f@),
                None => self@.find_function(name@) is None,
            },
    {
        assert(labels(self.functions@) =~= function_names(function_views(self.functions@)));
        match find_named(&self.functions, name) {
            Some(i) => Some(&self.functions[i]),
            None => None,
        }
    }

    /// The struct of a name.
    pub fn struct_def(&self, name: &str) -> (r: Option<&StructDef>)
        ensures
            match r {
                Some(s) => self@.find_struct(name@) == Some(s@),
                None => self@.find_struct(name@) is None,
            },
    {
        assert(labels(self.structs@) =~= struct_names(struct_views(self.structs@)));
        match find_named(&self.structs, name) {
            Some(i) => Some(&self.structs[i]),
            None => None,
        }
    }

    /// The union of a name.
    pub fn union_def(&self, name: &str) -> (r: Option<&UnionDef>)
        ensures
            match r {
                Some(u) => self@.find_union(name@) == Some(u@),
                None => self@.find_union(name@) is None,
            },
    {
        assert(labels(self.unions@) =~= union_names(union_views(self.unions@)));
        match find_named(&self.unions, name) {
            Some(i) => Some(&self.unions[i]),
            None => None,
        }
    }

    /// The enum of a name.
    pub fn enum_def(&self, name: &str) -> (r: Option<&EnumDef>)
        ensures
            match r {
                Some(e) => self@.find_enum(name@) == Some(e@),
                None => self@.find_enum(name@) is None,
            },
    {
        assert(labels(self.enums@) =~= enum_names(enum_views(self.enums@)));
        match find_named(&self.enums, name) {
            Some(i) => Some(&self.enums[i]),
            None => None,
        }
    }

    /// The enum of errors of a name.
    pub fn error_enum_def(&self, name: &str) -> (r: Option<&EnumDef>)
        ensures
            match r {
                Some(e) => self@.find_error_enum(name@) == Some(e@),
                None => self@.find_error_enum(name@) is None,
            },
    {
        assert(labels(self.error_enums@) =~= enum_names(enum_views(self.error_enums@)));
        match find_named(&self.error_enums, name) {
            Some(i) => Some(&self.error_enums[i]),
            None => None,
        }
    }

    /// The first case of a name in the union of a name.
    pub fn union_case(&self, union_name: &str, case_name: &str) -> (r: Option<&UnionCase>)
        ensures
            match r {
                Some(c) => self@.find_union_case(union_name@, case_name@) == Some(c@),
                None => self@.find_union_case(union_name@, case_name@) is None,
            },
    {
        match self.union_def(union_name) {
            None => None,
            Some(u) => {
                assert(labels(u.cases@) =~= union_case_names(union_case_views(u.cases@)));
                match find_named(&u.cases, case_name) {
                    Some(i) => Some(&u.cases[i]),
                    None => None,
                }
            },
        }
    }
}

/// Finds the first case of a name in an enum.
pub fn enum_case<'a>(e: &'a EnumDef, name: &str) -> (r: Option<&'a EnumCase>)
    ensures
        match r {
            Some(c) => find_enum_case(e@, name@) == Some(c@),
            None => find_enum_case(e@, name@) is None,
        },
{
    assert(labels(e.cases@) =~= enum_case_names(enum_case_views(e.cases@)));
    match find_named(&e.cases, name) {
        Some(i) => Some(&e.cases[i]),
        None => None,
    }
}

/// The first case of a name in an enum.
pub open spec fn find_enum_case(e: EnumView, name: Seq<char>) -> Option<EnumCaseView> {
    let i = name_index(enum_case_names(e.cases), name);
    if 0 <= i < e.cases.len() {
        Some(e.cases[i])
    } else {
        None
    }
}

/// Entering a name where `name_index` says keeps names distinct.
proof fn lemma_entered_distinct(before: Seq<Seq<char>>, after: Seq<Seq<char>>, name: Seq<char>)
    requires
        distinct(before),
        after == if name_index(before, name) < before.len() {
            before.update(name_index(before, name), name)
        } else {
            before.push(name)
        },
    ensures
        distinct(after),
{
    lemma_name_index(before, name, 0);
    let i = name_index(before, name);
    if i < before.len() {
        assert(after =~= before);
    }
}

proof fn lemma_gathered_well_formed(entries: Seq<SpecEntryView>, n: int)
    ensures
        gathered(entries, n).well_formed(),
    decreases n,
{
    if n > 0 {
        lemma_gathered_well_formed(entries, n - 1);
        let done = gathered(entries, n - 1);
        match entries[n - 1] {
            SpecEntryView::Struct(s) => {
                let t = with_struct(done.structs, s);
                lemma_name_index(struct_names(done.structs), s.name, 0);
                assert(struct_names(t) =~= if name_index(struct_names(done.structs), s.name)
                    < done.structs.len() {
                    struct_names(done.structs).update(
                        name_index(struct_names(done.structs), s.name),
                        s.name,
                    )
                } else {
                    struct_names(done.structs).push(s.name)
                });
                lemma_entered_distinct(struct_names(done.structs), struct_names(t), s.name);
            },
            SpecEntryView::Union(u) => {
                let t = with_union(done.unions, u);
                lemma_name_index(union_names(done.unions), u.name, 0);
                assert(union_names(t) =~= if name_index(union_names(done.unions), u.name)
                    < done.unions.len() {
                    union_names(done.unions).update(
                        name_index(union_names(done.unions), u.name),
                        u.name,
                    )
                } else {
                    union_names(done.unions).push(u.name)
                });
                lemma_entered_distinct(union_names(done.unions), union_names(t), u.name);
            },
            SpecEntryView::Enum(e) => lemma_enum_entered(done.enums, e),
            SpecEntryView::ErrorEnum(e) => lemma_enum_entered(done.error_enums, e),
            _ => {},
        }
    }
}

proof fn lemma_enum_entered(t: Seq<EnumView>, e: EnumView)
    requires
        distinct(enum_names(t)),
    ensures
        distinct(enum_names(with_enum(t, e))),
{
    lemma_name_index(enum_names(t), e.name, 0);
    assert(enum_names(with_enum(t, e)) =~= if name_index(enum_names(t), e.name) < t.len() {
        enum_names(t).update(name_index(enum_names(t), e.name), e.name)
    } else {
        enum_names(t).push(e.name)
    });
    lemma_entered_distinct(enum_names(t), enum_names(with_enum(t, e)), e.name);
}

} // verus!
