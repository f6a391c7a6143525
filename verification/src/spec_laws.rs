//! Which entries of an interface count.

use vstd::prelude::*;

use crate::interface::lemma_name_index;
use crate::interface::name_index;
use crate::interface::EnumView;
use crate::interface::FunctionView;
use crate::interface::SpecEntryView;
use crate::interface::StructView;
use crate::interface::UnionView;
use crate::spec::enum_names;
use crate::spec::gathered;
use crate::spec::struct_names;
use crate::spec::union_names;
use crate::spec::with_enum;
use crate::spec::with_struct;
use crate::spec::with_union;

verus! {

/// The last of the first `n` entries that is a struct of a name.
pub open spec fn last_struct(entries: Seq<SpecEntryView>, name: Seq<char>, n: int) -> Option<
    StructView,
>
    decreases n,
{
    if n <= 0 {
        None
    } else {
        match entries[n - 1] {
            SpecEntryView::Struct(s) => if s.name == name {
                Some(s)
            } else {
                last_struct(entries, name, n - 1)
            },
            _ => last_struct(entries, name, n - 1),
        }
    }
}

/// The last of the first `n` entries that is a union of a name.
pub open spec fn last_union(entries: Seq<SpecEntryView>, name: Seq<char>, n: int) -> Option<
    UnionView,
>
    decreases n,
{
    if n <= 0 {
        None
    } else {
        match entries[n - 1] {
            SpecEntryView::Union(u) => if u.name == name {
                Some(u)
            } else {
                last_union(entries, name, n - 1)
            },
            _ => last_union(entries, name, n - 1),
        }
    }
}

/// The last of the first `n` entries that is an enum of a name.
pub open spec fn last_enum(entries: Seq<SpecEntryView>, name: Seq<char>, n: int) -> Option<
    EnumView,
>
    decreases n,
{
    if n <= 0 {
        None
    } else {
        match entries[n - 1] {
            SpecEntryView::Enum(e) => if e.name == name {
                Some(e)
            } else {
                last_enum(entries, name, n - 1)
            },
            _ => last_enum(entries, name, n - 1),
        }
    }
}

/// The last of the first `n` entries that is an enum of errors of a name.
pub open spec fn last_error_enum(entries: Seq<SpecEntryView>, name: Seq<char>, n: int) -> Option<
    EnumView,
>
    decreases n,
{
    if n <= 0 {
        None
    } else {
        match entries[n - 1] {
            SpecEntryView::ErrorEnum(e) => if e.name == name {
                Some(e)
            } else {
                last_error_enum(entries, name, n - 1)
            },
            _ => last_error_enum(entries, name, n - 1),
        }
    }
}

/// The functions among the first `n` entries, in their order.
pub open spec fn functions_among(entries: Seq<SpecEntryView>, n: int) -> Seq<FunctionView>
    decreases n,
{
    if n <= 0 {
        Seq::empty()
    } else {
        match entries[n - 1] {
            SpecEntryView::Function(f) => functions_among(entries, n - 1).push(f),
            _ => functions_among(entries, n - 1),
        }
    }
}

/// Entering a name puts it where it is found, and moves no other.
proof fn lemma_entered(names: Seq<Seq<char>>, name: Seq<char>, wanted: Seq<char>)
    ensures
        ({
            let i = name_index(names, name);
            let after = if 0 <= i < names.len() {
                names.update(i, name)
            } else {
                names.push(name)
            };
            &&& 0 <= i <= names.len()
            &&& wanted == name ==> name_index(after, wanted) == i
            &&& wanted != name && name_index(names, wanted) < names.len() ==> name_index(
                after,
                wanted,
            ) == name_index(names, wanted) && name_index(names, wanted) != i
            &&& wanted != name && name_index(names, wanted) >= names.len() ==> name_index(
                after,
                wanted,
            ) >= after.len()
            &&& 0 <= name_index(names, wanted) <= names.len()
        }),
{
    let i = name_index(names, name);
    lemma_name_index(names, name, 0);
    lemma_name_index(names, wanted, 0);
    let after = if 0 <= i < names.len() {
        names.update(i, name)
    } else {
        names.push(name)
    };
    lemma_name_index(after, wanted, 0);
    let a = name_index(names, wanted);
    let b = name_index(after, wanted);
    if i < names.len() {
        assert(after =~= names);
    } else {
        assert(after[names.len() as int] == name);
        assert(b < names.len() ==> after[b] == names[b]);
        assert(a < names.len() ==> after[a] == names[a]);
    }
}

/// Of the types of one kind with one name, the last entry counts; the functions are
/// those of the entries, in their order; and events are left out.
pub proof fn law_last_entry_counts(entries: Seq<SpecEntryView>, name: Seq<char>, n: int)
    requires
        0 <= n <= entries.len(),
    ensures
        gathered(entries, n).find_struct(name) == last_struct(entries, name, n),
        gathered(entries, n).find_union(name) == last_union(entries, name, n),
        gathered(entries, n).find_enum(name) == last_enum(entries, name, n),
        gathered(entries, n).find_error_enum(name) == last_error_enum(entries, name, n),
        gathered(entries, n).functions == functions_among(entries, n),
        n > 0 && entries[n - 1] is Event ==> gathered(entries, n) == gathered(entries, n - 1),
    decreases n,
{
    if n > 0 {
        law_last_entry_counts(entries, name, n - 1);
        let done = gathered(entries, n - 1);
        match entries[n - 1] {
            SpecEntryView::Struct(s) => {
                lemma_entered(struct_names(done.structs), s.name, name);
                let after = with_struct(done.structs, s);
                let i = name_index(struct_names(done.structs), s.name);
                assert(struct_names(after) =~= if 0 <= i < done.structs.len() {
                    struct_names(done.structs).update(i, s.name)
                } else {
                    struct_names(done.structs).push(s.name)
                });
            },
            SpecEntryView::Union(u) => {
                lemma_entered(union_names(done.unions), u.name, name);
                let after = with_union(done.unions, u);
                let i = name_index(union_names(done.unions), u.name);
                assert(union_names(after) =~= if 0 <= i < done.unions.len() {
                    union_names(done.unions).update(i, u.name)
                } else {
                    union_names(done.unions).push(u.name)
                });
            },
            SpecEntryView::Enum(e) => lemma_enum_entered(done.enums, e, name),
            SpecEntryView::ErrorEnum(e) => lemma_enum_entered(done.error_enums, e, name),
            _ => {},
        }
    }
}

proof fn lemma_enum_entered(t: Seq<EnumView>, e: EnumView, name: Seq<char>)
    ensures
        ({
            let i = name_index(enum_names(with_enum(t, e)), name);
            let j = name_index(enum_names(t), name);
            &&& name == e.name ==> 0 <= i < with_enum(t, e).len() && with_enum(t, e)[i] == e
            &&& name != e.name ==> ((0 <= i < with_enum(t, e).len()) == (0 <= j < t.len())) && (
            0 <= j < t.len() ==> with_enum(t, e)[i] == t[j])
        }),
{
    lemma_entered(enum_names(t), e.name, name);
    let after = with_enum(t, e);
    let k = name_index(enum_names(t), e.name);
    assert(enum_names(after) =~= if 0 <= k < t.len() {
        enum_names(t).update(k, e.name)
    } else {
        enum_names(t).push(e.name)
    });
}

} // verus!
