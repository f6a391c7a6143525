//! The notations in which a value can be given.

use vstd::prelude::*;
use vstd::utf8::encode_utf8;

use crate::encoding::hex_bytes;
use crate::encoding::is_hex;
use crate::encoding::is_plain;
use crate::encoding::law_plain_text_is_taken_as_it_is;
use crate::interface::EnumView;
use crate::interface::TypeView;
use crate::json::int_number;
use crate::json::JsonNumber;
use crate::json::JsonView;
use crate::scval::bytes_of;
use crate::scval::enum_val;
use crate::scval::error_enum_val;
use crate::scval::i128_of;
use crate::scval::i64_of;
use crate::scval::is_byte;
use crate::scval::u128_of;
use crate::scval::u64_of;
use crate::scval::union_val;
use crate::scval::val_of;
use crate::scval::vals_upto;
use crate::scval::without_0x;
use crate::scval::ListTypesView;
use crate::spec::find_enum_case;
use crate::spec::SpecView;
use crate::text::decimal;
use crate::text::law_decimal_is_read_back;
use crate::value::ValView;

verus! {

/// An object with the key `__xdr` is read in the same way whatever the type and
/// the interface.
pub proof fn law_xdr_is_taken_as_it_is(
    value: JsonView,
    t1: TypeView,
    spec1: SpecView,
    t2: TypeView,
    spec2: SpecView,
)
    requires
        value.at_key("__xdr"@) is Some,
    ensures
        val_of(value, t1, spec1) == val_of(value, t2, spec2),
{
}

/// Null stands for an optional value that is not there; any other JSON value is
/// read as the type of the value.
pub proof fn law_null_is_no_value(value: JsonView, t: TypeView, spec: SpecView)
    ensures
        val_of(JsonView::Null, TypeView::Option(Box::new(t)), spec) == Ok::<ValView, Seq<char>>(
            ValView::Void,
        ),
        !(value is Null) ==> val_of(value, TypeView::Option(Box::new(t)), spec) == val_of(
            value,
            t,
            spec,
        ),
{
}

/// An integer of up to 64 bits can be given as a number, and any integer as its
/// decimal notation in a string.
pub proof fn law_integer_notations(n: int)
    ensures
        0 <= n <= u64::MAX ==> {
            &&& u64_of(JsonView::Number(int_number(n))) == Ok::<int, Seq<char>>(n)
            &&& u64_of(JsonView::String(decimal(n))) == Ok::<int, Seq<char>>(n)
            &&& u128_of(JsonView::Number(int_number(n))) == Ok::<int, Seq<char>>(n)
            &&& i128_of(JsonView::Number(int_number(n))) == Ok::<int, Seq<char>>(n)
        },
        i64::MIN <= n <= i64::MAX ==> {
            &&& i64_of(JsonView::Number(int_number(n))) == Ok::<int, Seq<char>>(n)
            &&& i64_of(JsonView::String(decimal(n))) == Ok::<int, Seq<char>>(n)
            &&& i128_of(JsonView::Number(int_number(n))) == Ok::<int, Seq<char>>(n)
        },
        0 <= n <= u128::MAX ==> u128_of(JsonView::String(decimal(n))) == Ok::<int, Seq<char>>(n),
        i128::MIN <= n <= i128::MAX ==> i128_of(JsonView::String(decimal(n))) == Ok::<
            int,
            Seq<char>,
        >(n),
{
    if 0 <= n <= u64::MAX {
        law_decimal_is_read_back(n, 0, u64::MAX as int);
    }
    if i64::MIN <= n <= i64::MAX {
        law_decimal_is_read_back(n, i64::MIN as int, i64::MAX as int);
    }
    if 0 <= n <= u128::MAX {
        law_decimal_is_read_back(n, 0, u128::MAX as int);
    }
    if i128::MIN <= n <= i128::MAX {
        law_decimal_is_read_back(n, i128::MIN as int, i128::MAX as int);
    }
}

/// Bytes can be given in hexadecimal, with `0x` before the digits or without, or
/// as an array of numbers.
pub proof fn law_bytes_notations(digits: Seq<char>, bytes: Seq<u8>)
    requires
        is_hex(digits),
    ensures
        bytes_of(JsonView::String(digits)) == Ok::<Seq<u8>, Seq<char>>(hex_bytes(digits)),
        bytes_of(JsonView::String("0x"@ + digits)) == Ok::<Seq<u8>, Seq<char>>(hex_bytes(digits)),
        bytes_of(
            JsonView::Array(
                Seq::new(
                    bytes.len(),
                    |i: int| JsonView::Number(JsonNumber::Unsigned(bytes[i] as u64)),
                ),
            ),
        ) == Ok::<Seq<u8>, Seq<char>>(bytes),
{
    reveal_strlit("0x");
    let prefixed = "0x"@ + digits;
    assert(prefixed[0] == '0' && prefixed[1] == 'x');
    assert(prefixed.skip(2) =~= digits);
    if digits.len() >= 2 {
        assert(crate::encoding::hex_value(digits[1]) is Some);
        assert(without_0x(digits) == digits);
    }
    let items = Seq::new(
        bytes.len(),
        |i: int| JsonView::Number(JsonNumber::Unsigned(bytes[i] as u64)),
    );
    assert forall|i: int| 0 <= i < items.len() implies is_byte(#[trigger] items[i]) by {}
    assert(Seq::new(items.len(), |i: int| items[i].u64_value()->0 as u8) =~= bytes);
}

/// A value of an enum can be given as the name of its case or as its number.
pub proof fn law_enum_notations(e: EnumView, name: Seq<char>)
    requires
        find_enum_case(e, name) is Some,
    ensures
        enum_val(e, JsonView::String(name)) == Ok::<ValView, Seq<char>>(
            ValView::U32(find_enum_case(e, name)->0.value),
        ),
        enum_val(
            e,
            JsonView::Number(int_number(find_enum_case(e, name)->0.value as int)),
        ) == enum_val(e, JsonView::String(name)),
        error_enum_val(
            e,
            JsonView::Number(int_number(find_enum_case(e, name)->0.value as int)),
        ) == error_enum_val(e, JsonView::String(name)),
{
    let i = crate::interface::name_index(crate::spec::enum_case_names(e.cases), name);
    assert(e.cases[i].value == find_enum_case(e, name)->0.value);
}

/// The object in which a union's case has its arguments.
pub open spec fn case_object(case: Seq<char>, args: JsonView) -> JsonView {
    JsonView::Object(seq![(case, args)])
}

/// A union's case without arguments can be given as its name, or as an object with
/// its name over an empty array or over null. If the name can be a symbol, that gives
/// the symbol in a list where the case carries no values, and a failure where it
/// carries some.
pub proof fn law_bare_case_notations(name: Seq<char>, case: Seq<char>, spec: SpecView)
    ensures
        union_val(name, case_object(case, JsonView::Array(Seq::empty())), spec) == union_val(
            name,
            JsonView::String(case),
            spec,
        ),
        union_val(name, case_object(case, JsonView::Null), spec) == union_val(
            name,
            JsonView::String(case),
            spec,
        ),
        is_plain(case) && encode_utf8(case).len() <= 32 ==> match spec.find_union_case(
            name,
            case,
        ) {
            None => union_val(name, JsonView::String(case), spec) is Err,
            Some(c) => if c.types is Some && c.types->0.len() > 0 {
                union_val(name, JsonView::String(case), spec) is Err
            } else {
                union_val(name, JsonView::String(case), spec) == Ok::<ValView, Seq<char>>(
                    ValView::Vec(Some(seq![ValView::Symbol(encode_utf8(case))])),
                )
            },
        },
{
    if is_plain(case) {
        law_plain_text_is_taken_as_it_is(case);
        let symbol = ValView::Symbol(encode_utf8(case));
        assert(seq![symbol] + Seq::<ValView>::empty() =~= seq![symbol]);
    }
}

/// The one argument of a union's case, if it is neither an array nor null, can be
/// given as it is or in an array.
pub proof fn law_single_argument_notations(
    name: Seq<char>,
    case: Seq<char>,
    arg: JsonView,
    spec: SpecView,
)
    requires
        !(arg is Array),
        !(arg is Null),
    ensures
        union_val(name, case_object(case, JsonView::Array(seq![arg])), spec) == union_val(
            name,
            case_object(case, arg),
            spec,
        ),
{
    let types = ListTypesView::Listed(crate::scval::case_types(name, case, spec));
    let items = seq![arg];
    assert(vals_upto(items, types, spec, 0) == Ok::<Seq<ValView>, Seq<char>>(Seq::empty()));
    assert(vals_upto(items, types, spec, 1) == match val_of(arg, types.at(0), spec) {
        Ok(v) => Ok::<Seq<ValView>, Seq<char>>(Seq::empty().push(v)),
        Err(e) => Err(e),
    });
    if let Ok(v) = val_of(arg, types.at(0), spec) {
        assert(Seq::<ValView>::empty().push(v) =~= seq![v]);
    }
}

} // verus!
