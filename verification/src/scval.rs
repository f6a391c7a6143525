//! Type-directed conversion between plain JSON and contract values.
//!
//! A caller writes an argument as plain JSON, and the type that the contract's
//! interface declares for it says how it is read. For any argument the caller
//! may write `{"__xdr": <value>}` instead, with the value in the JSON notation of
//! the wire format, which is taken as it is whatever the type.

use vstd::prelude::*;
use vstd::string::*;

use crate::encoding::account_of;
use crate::encoding::account_text;
use crate::encoding::contract_of;
use crate::encoding::contract_text;
use crate::encoding::hex_bytes;
use crate::encoding::hex_complaint;
use crate::encoding::hex_decode;
use crate::encoding::is_hex;
use crate::encoding::lossy_text;
use crate::encoding::parse_account;
use crate::encoding::parse_contract;
use crate::encoding::parse_wire_text;
use crate::encoding::render_account;
use crate::encoding::render_bytes;
use crate::encoding::render_contract;
use crate::encoding::wire_bytes;
use crate::entries::comparable;
use crate::entries::in_key_order;
use crate::entries::law_entries_are_sorted;
use crate::entries::sort_entries;
use crate::entries::sorted;
use crate::error::told;
use crate::error::Failure;
use crate::interface::field_views;
use crate::interface::type_views;
use crate::interface::EnumDef;
use crate::interface::EnumView;
use crate::interface::Field;
use crate::interface::FieldView;
use crate::interface::StructDef;
use crate::interface::StructView;
use crate::interface::TypeDef;
use crate::interface::TypeView;
use crate::json::canonical;
use crate::json::json_views;
use crate::json::find_key;
use crate::json::key_index;
use crate::json::pair_views;
use crate::json::Json;
use crate::json::JsonView;
use crate::spec::enum_case;
use crate::spec::find_enum_case;
use crate::spec::ContractSpec;
use crate::spec::SpecView;
use crate::text::cat2;
use crate::text::cat3;
use crate::text::cat5;
use crate::text::cat6;
use crate::text::cat7;
use crate::text::chars_of;
use crate::text::decimal;
use crate::text::int_value;
use crate::text::parse_signed;
use crate::text::parse_unsigned;
use crate::text::text_eq;
use crate::text::unsigned_text;
use crate::value::entry_views;
use crate::value::fits;
use crate::value::same_key_type;
use crate::value::val_views;
use crate::value::Address;
use crate::value::AddressView;
use crate::value::Int128Parts;
use crate::value::Int256Parts;
use crate::value::UInt128Parts;
use crate::value::UInt256Parts;
use crate::value::Val;
use crate::value::ValView;
use crate::xdr::address_debug;
use crate::xdr::debug_address;
use crate::xdr::val_of_json;
use crate::xdr_types::lemma_type_parts;
use crate::xdr_types::type_debug;
use crate::xdr_types::type_fits;

verus! {

/// An integer in a range, given as a JSON integer or as a decimal string.
/// `native` is what the JSON value is as a number, and `kind` names what is
/// expected of a string.
pub open spec fn integer_of(
    j: JsonView,
    native: Option<int>,
    lo: int,
    hi: int,
    kind: Seq<char>,
) -> Result<int, Seq<char>> {
    match native {
        Some(n) => Ok(n),
        None => match j.str_value() {
            Some(s) => match int_value(s, lo, hi) {
                Ok(n) => Ok(n),
                Err(e) => Err("invalid "@ + kind + " `"@ + s + "`: "@ + e.text()),
            },
            None => Err("expected an integer or a numeric string"@),
        },
    }
}

pub open spec fn u64_native(j: JsonView) -> Option<int> {
    match j.u64_value() {
        Some(n) => Some(n as int),
        None => None,
    }
}

pub open spec fn i64_native(j: JsonView) -> Option<int> {
    match j.i64_value() {
        Some(n) => Some(n as int),
        None => None,
    }
}

pub open spec fn u64_of(j: JsonView) -> Result<int, Seq<char>> {
    integer_of(j, u64_native(j), 0, u64::MAX as int, "integer"@)
}

pub open spec fn i64_of(j: JsonView) -> Result<int, Seq<char>> {
    integer_of(j, i64_native(j), i64::MIN as int, i64::MAX as int, "integer"@)
}

pub open spec fn u128_of(j: JsonView) -> Result<int, Seq<char>> {
    integer_of(j, u64_native(j), 0, u128::MAX as int, "u128"@)
}

/// The integer that a JSON value is as a number, of either sign.
pub open spec fn i128_native(j: JsonView) -> Option<int> {
    match u64_native(j) {
        Some(n) => Some(n),
        None => i64_native(j),
    }
}

pub open spec fn i128_of(j: JsonView) -> Result<int, Seq<char>> {
    integer_of(j, i128_native(j), i128::MIN as int, i128::MAX as int, "i128"@)
}

fn string_as_unsigned(v: &Json, max: u128, kind: &str) -> (r: Result<u128, Failure>)
    ensures
        match r {
            Ok(n) => n <= max && integer_of(v@, None, 0, max as int, kind@) == Ok::<int, Seq<char>>(
                n as int,
            ),
            Err(e) => integer_of(v@, None, 0, max as int, kind@) == Err::<int, Seq<char>>(e@),
        },
{
    match v.as_str() {
        Some(s) => match parse_unsigned(s, max) {
            Ok(n) => Ok(n),
            Err(e) => Err(
                Failure::new(cat6("invalid ", kind, " `", s, "`: ", e.message().as_str())),
            ),
        },
        None => Err(Failure::of("expected an integer or a numeric string")),
    }
}

fn string_as_signed(v: &Json, min: i128, max: i128, kind: &str) -> (r: Result<i128, Failure>)
    requires
        min < 0 <= max,
    ensures
        match r {
            Ok(n) => min <= n <= max && integer_of(v@, None, min as int, max as int, kind@) == Ok::<
                int,
                Seq<char>,
            >(n as int),
            Err(e) => integer_of(v@, None, min as int, max as int, kind@) == Err::<int, Seq<char>>(
                e@,
            ),
        },
{
    match v.as_str() {
        Some(s) => match parse_signed(s, min, max) {
            Ok(n) => Ok(n),
            Err(e) => Err(
                Failure::new(cat6("invalid ", kind, " `", s, "`: ", e.message().as_str())),
            ),
        },
        None => Err(Failure::of("expected an integer or a numeric string")),
    }
}

/// Reads a `u64`.
pub fn as_u64(v: &Json) -> (r: Result<u64, Failure>)
    ensures
        match r {
            Ok(n) => u64_of(v@) == Ok::<int, Seq<char>>(n as int),
            Err(e) => u64_of(v@) == Err::<int, Seq<char>>(e@),
        },
{
    match v.as_u64() {
        Some(n) => Ok(n),
        None => match string_as_unsigned(v, u64::MAX as u128, "integer") {
            Ok(n) => Ok(n as u64),
            Err(e) => Err(e),
        },
    }
}

/// Reads an `i64`.
pub fn as_i64(v: &Json) -> (r: Result<i64, Failure>)
    ensures
        match r {
            Ok(n) => i64_of(v@) == Ok::<int, Seq<char>>(n as int),
            Err(e) => i64_of(v@) == Err::<int, Seq<char>>(e@),
        },
{
    match v.as_i64() {
        Some(n) => Ok(n),
        None => match string_as_signed(v, i64::MIN as i128, i64::MAX as i128, "integer") {
            Ok(n) => Ok(n as i64),
            Err(e) => Err(e),
        },
    }
}

/// Reads a `u128`.
pub fn as_u128(v: &Json) -> (r: Result<u128, Failure>)
    ensures
        match r {
            Ok(n) => u128_of(v@) == Ok::<int, Seq<char>>(n as int),
            Err(e) => u128_of(v@) == Err::<int, Seq<char>>(e@),
        },
{
    match v.as_u64() {
        Some(n) => Ok(n as u128),
        None => string_as_unsigned(v, u128::MAX, "u128"),
    }
}

/// Reads an `i128`.
pub fn as_i128(v: &Json) -> (r: Result<i128, Failure>)
    ensures
        match r {
            Ok(n) => i128_of(v@) == Ok::<int, Seq<char>>(n as int),
            Err(e) => i128_of(v@) == Err::<int, Seq<char>>(e@),
        },
{
    match v.as_u64() {
        Some(n) => Ok(n as i128),
        None => match v.as_i64() {
            Some(n) => Ok(n as i128),
            None => string_as_signed(v, i128::MIN, i128::MAX, "i128"),
        },
    }
}

/// Two to the power of 64.
pub open spec fn two64() -> int {
    0x1_0000_0000_0000_0000
}

/// The halves of an unsigned 128-bit integer.
pub open spec fn u128_parts(n: int) -> UInt128Parts {
    UInt128Parts { hi: (n / two64()) as u64, lo: (n % two64()) as u64 }
}

/// The halves of a signed 128-bit integer.
pub open spec fn i128_parts(n: int) -> Int128Parts {
    Int128Parts { hi: (n / two64()) as i64, lo: (n % two64()) as u64 }
}

/// The integer that two halves make.
pub open spec fn u128_value(p: UInt128Parts) -> int {
    p.hi * two64() + p.lo
}

/// The integer that two halves make.
pub open spec fn i128_value(p: Int128Parts) -> int {
    p.hi * two64() + p.lo
}

/// The integer that four quarters make.
pub open spec fn u256_value(p: UInt256Parts) -> int {
    ((p.hi_hi * two64() + p.hi_lo) * two64() + p.lo_hi) * two64() + p.lo_lo
}

/// The integer that four quarters make.
pub open spec fn i256_value(p: Int256Parts) -> int {
    ((p.hi_hi * two64() + p.hi_lo) * two64() + p.lo_hi) * two64() + p.lo_lo
}

/// The halves of an integer make that integer, and those of what two halves
/// make are these two.
pub proof fn law_u128_parts(n: int, p: UInt128Parts)
    requires
        0 <= n <= u128::MAX,
    ensures
        u128_value(u128_parts(n)) == n,
        u128_parts(u128_value(p)) == p,
        0 <= u128_value(p) <= u128::MAX,
{
    assert(0 <= n / two64() <= u64::MAX);
    let m = u128_value(p);
    assert(m / two64() == p.hi && m % two64() == p.lo);
}

/// The halves of an integer make that integer, and those of what two halves
/// make are these two.
pub proof fn law_i128_parts(n: int, p: Int128Parts)
    requires
        i128::MIN <= n <= i128::MAX,
    ensures
        i128_value(i128_parts(n)) == n,
        i128_parts(i128_value(p)) == p,
        i128::MIN <= i128_value(p) <= i128::MAX,
{
    assert(i64::MIN <= n / two64() <= i64::MAX);
    let m = i128_value(p);
    assert(m / two64() == p.hi && m % two64() == p.lo);
}

/// Splits an unsigned 128-bit integer into its halves.
pub fn u128_to_parts(v: u128) -> (r: UInt128Parts)
    ensures
        r == u128_parts(v as int),
{
    UInt128Parts {
        hi: (v / 0x1_0000_0000_0000_0000) as u64,
        lo: (v % 0x1_0000_0000_0000_0000) as u64,
    }
}

/// Splits a signed 128-bit integer into its halves.
pub fn i128_to_parts(v: i128) -> (r: Int128Parts)
    ensures
        r == i128_parts(v as int),
{
    if v >= 0 {
        let n: u128 = v as u128;
        Int128Parts {
            hi: (n / 0x1_0000_0000_0000_0000) as i64,
            lo: (n % 0x1_0000_0000_0000_0000) as u64,
        }
    } else {
        let n: u128 = (-(v + 1)) as u128;
        let above: i64 = (n / 0x1_0000_0000_0000_0000) as i64;
        let below: u64 = (n % 0x1_0000_0000_0000_0000) as u64;
        Int128Parts { hi: -above - 1, lo: u64::MAX - below }
    }
}

/// Puts the halves of an unsigned 128-bit integer together.
pub fn u128_from_parts(p: &UInt128Parts) -> (r: u128)
    ensures
        r == u128_value(*p),
{
    p.hi as u128 * 0x1_0000_0000_0000_0000 + p.lo as u128
}

/// Puts the halves of a signed 128-bit integer together.
pub fn i128_from_parts(p: &Int128Parts) -> (r: i128)
    ensures
        r == i128_value(*p),
{
    p.hi as i128 * 0x1_0000_0000_0000_0000 + p.lo as i128
}

/// A text without a leading `0x`.
pub open spec fn without_0x(s: Seq<char>) -> Seq<char> {
    if s.len() >= 2 && s[0] == '0' && s[1] == 'x' {
        s.skip(2)
    } else {
        s
    }
}

/// Whether a JSON value is an integer of one byte.
pub open spec fn is_byte(j: JsonView) -> bool {
    match j.u64_value() {
        Some(n) => n <= 255,
        None => false,
    }
}

/// The bytes that a JSON value denotes: a hexadecimal string or an array of
/// integers.
pub open spec fn bytes_of(j: JsonView) -> Result<Seq<u8>, Seq<char>> {
    match j {
        JsonView::String(s) => {
            let digits = without_0x(s);
            if is_hex(digits) {
                Ok(hex_bytes(digits))
            } else {
                Err("invalid hex bytes: "@ + hex_complaint(digits))
            }
        },
        JsonView::Array(items) => if forall|i: int|
            0 <= i < items.len() ==> is_byte(#[trigger] items[i]) {
            Ok(Seq::new(items.len(), |i: int| items[i].u64_value()->0 as u8))
        } else {
            Err("byte array elements must be integers 0-255"@)
        },
        _ => Err("expected a hex string (optionally 0x-prefixed) or an array of byte values"@),
    }
}

/// Reads bytes: a hexadecimal string, with or without a leading `0x`, or an
/// array of integers from 0 to 255.
pub fn bytes_from_json(value: &Json) -> (r: Result<Vec<u8>, Failure>)
    ensures
        match r {
            Ok(b) => bytes_of(value@) == Ok::<Seq<u8>, Seq<char>>(b@),
            Err(e) => bytes_of(value@) == Err::<Seq<u8>, Seq<char>>(e@),
        },
{
    match value {
        Json::String(s) => {
            let chars = chars_of(s.as_str());
            let digits = if chars.len() >= 2 && chars[0] == '0' && chars[1] == 'x' {
                assert(s@.subrange(2, s@.len() as int) =~= s@.skip(2));
                s.as_str().substring_char(2, chars.len())
            } else {
                s.as_str()
            };
            match hex_decode(digits) {
                Ok(b) => Ok(b),
                Err(e) => Err(Failure::new(cat2("invalid hex bytes: ", e.as_str()))),
            }
        },
        Json::Array(items) => {
            let ghost shown = json_views(items@);
            let mut out: Vec<u8> = Vec::new();
            let mut i: usize = 0;
            while i < items.len()
                invariant
                    i <= items@.len(),
                    shown == json_views(items@),
                    value@ == JsonView::Array(shown),
                    out@.len() == i,
                    forall|k: int| 0 <= k < i ==> is_byte(#[trigger] shown[k]),
                    forall|k: int|
                        0 <= k < i ==> #[trigger] out@[k] == shown[k].u64_value()->0 as u8,
                decreases items@.len() - i,
            {
                assert(shown[i as int] == items@[i as int]@);
                match items[i].as_u64() {
                    Some(n) => {
                        if n > 255 {
                            assert(!is_byte(shown[i as int]));
                            return Err(Failure::of("byte array elements must be integers 0-255"));
                        }
                        out.push(n as u8);
                    },
                    None => {
                        assert(!is_byte(shown[i as int]));
                        return Err(Failure::of("byte array elements must be integers 0-255"));
                    },
                }
                i += 1;
            }
            assert(out@ =~= Seq::new(shown.len(), |k: int| shown[k].u64_value()->0 as u8));
            Ok(out)
        },
        _ => Err(
            Failure::of(
                "expected a hex string (optionally 0x-prefixed) or an array of byte values",
            ),
        ),
    }
}

/// The bytes of a symbol that is written as a text, by what the text stands for on
/// the wire.
pub open spec fn symbol_in(s: Seq<char>, bytes: Option<Seq<u8>>) -> Result<Seq<u8>, Seq<char>> {
    match bytes {
        Some(b) => if b.len() <= 32 {
            Ok(b)
        } else {
            Err("symbol `"@ + s + "` is invalid or too long"@)
        },
        None => Err("symbol `"@ + s + "` is invalid or too long"@),
    }
}

/// The bytes of the symbol that a text names.
pub open spec fn symbol_of(s: Seq<char>) -> Result<Seq<u8>, Seq<char>> {
    symbol_in(s, wire_bytes(s))
}

pub open spec fn bytes_option(b: Option<Vec<u8>>) -> Option<Seq<u8>> {
    match b {
        Some(b) => Some(b@),
        None => None,
    }
}

/// Takes the bytes that a text stands for as a symbol, which has at most 32.
pub fn symbol_from_bytes(s: &str, bytes: Option<Vec<u8>>) -> (r: Result<Vec<u8>, Failure>)
    ensures
        match r {
            Ok(b) => symbol_in(s@, bytes_option(bytes)) == Ok::<Seq<u8>, Seq<char>>(b@) && b@.len()
                <= 32,
            Err(e) => symbol_in(s@, bytes_option(bytes)) == Err::<Seq<u8>, Seq<char>>(e@),
        },
{
    match bytes {
        Some(b) => if b.len() <= 32 {
            Ok(b)
        } else {
            Err(Failure::new(cat3("symbol `", s, "` is invalid or too long")))
        },
        None => Err(Failure::new(cat3("symbol `", s, "` is invalid or too long"))),
    }
}

/// Reads a symbol, which has at most 32 bytes.
pub fn symbol_from_str(s: &str) -> (r: Result<Vec<u8>, Failure>)
    ensures
        match r {
            Ok(b) => symbol_of(s@) == Ok::<Seq<u8>, Seq<char>>(b@) && b@.len() <= 32,
            Err(e) => symbol_of(s@) == Err::<Seq<u8>, Seq<char>>(e@),
        },
{
    symbol_from_bytes(s, parse_wire_text(s))
}

/// The address that a text names, by the account and the contract that it is the
/// strkey of.
pub open spec fn address_in(
    s: Seq<char>,
    account: Option<Seq<u8>>,
    contract: Option<Seq<u8>>,
) -> Result<AddressView, Seq<char>> {
    match account {
        Some(key) => Ok(AddressView::Account(key)),
        None => match contract {
            Some(id) => Ok(AddressView::Contract(id)),
            None => Err(
                "invalid address `"@ + s
                    + "`: expected a G... account or C... contract strkey"@,
            ),
        },
    }
}

/// The address that a strkey names.
pub open spec fn address_of(s: Seq<char>) -> Result<AddressView, Seq<char>> {
    address_in(s, account_of(s), contract_of(s))
}

pub open spec fn key_option(k: Option<[u8; 32]>) -> Option<Seq<u8>> {
    match k {
        Some(k) => Some(k@),
        None => None,
    }
}

/// Takes the account, or else the contract, that a text is the strkey of.
pub fn address_from_keys(s: &str, account: Option<[u8; 32]>, contract: Option<[u8; 32]>) -> (r:
    Result<Address, Failure>)
    ensures
        told(r) == address_in(s@, key_option(account), key_option(contract)),
        r matches Ok(a) ==> a@ is Account || a@ is Contract,
{
    match account {
        Some(key) => Ok(Address::Account(key)),
        None => match contract {
            Some(id) => Ok(Address::Contract(id)),
            None => Err(
                Failure::new(
                    cat3(
                        "invalid address `",
                        s,
                        "`: expected a G... account or C... contract strkey",
                    ),
                ),
            ),
        },
    }
}

/// Reads an address: the strkey of an account or of a contract, which is also what
/// the address renders as.
pub fn address_from_str(s: &str) -> (r: Result<Address, Failure>)
    ensures
        told(r) == address_of(s@),
        r matches Ok(a) ==> (a@ is Account || a@ is Contract) && address_text(a@) == s@,
{
    address_from_keys(s, parse_account(s), parse_contract(s))
}

/// The text of an address: its strkey, or the debug notation where it has none.
pub open spec fn address_text(a: AddressView) -> Seq<char> {
    match a {
        AddressView::Account(key) => account_text(key),
        AddressView::Contract(id) => contract_text(id),
        _ => address_debug(a),
    }
}

/// Renders an address. The strkey of an account or of a contract reads back as
/// the address.
pub fn address_to_string(a: &Address) -> (r: String)
    ensures
        r@ == address_text(a@),
        a@ is Account || a@ is Contract ==> address_of(r@) == Ok::<AddressView, Seq<char>>(a@),
{
    match a {
        Address::Account(key) => render_account(key),
        Address::Contract(id) => render_contract(id),
        _ => debug_address(a),
    }
}

/// The debug notation of a type; nothing for one beyond the limits of the wire
/// format.
pub open spec fn type_shown(t: TypeView) -> Seq<char> {
    if type_fits(t) {
        type_debug(t)
    } else {
        ""@
    }
}

/// The integer key that a text denotes, or the complaint about it.
pub open spec fn int_key(key: Seq<char>, lo: int, hi: int, kind: Seq<char>) -> Result<
    int,
    Seq<char>,
> {
    match int_value(key, lo, hi) {
        Ok(n) => Ok(n),
        Err(_) => Err("invalid "@ + kind + " map key `"@ + key + "`"@),
    }
}

/// The value that a key of a JSON object denotes, for a map with keys of a type.
pub open spec fn key_of(key: Seq<char>, key_type: TypeView) -> Result<ValView, Seq<char>> {
    match key_type {
        TypeView::Symbol => match symbol_of(key) {
            Ok(b) => Ok(ValView::Symbol(b)),
            Err(e) => Err(e),
        },
        TypeView::String => match wire_bytes(key) {
            Some(b) => Ok(ValView::String(b)),
            None => Err("map key string too long"@),
        },
        TypeView::Address | TypeView::MuxedAddress => match address_of(key) {
            Ok(a) => Ok(ValView::Address(a)),
            Err(e) => Err(e),
        },
        TypeView::Bool => if key == "true"@ {
            Ok(ValView::Bool(true))
        } else if key == "false"@ {
            Ok(ValView::Bool(false))
        } else {
            Err("invalid boolean map key `"@ + key + "`"@)
        },
        TypeView::U32 => match int_key(key, 0, u32::MAX as int, "u32"@) {
            Ok(n) => Ok(ValView::U32(n as u32)),
            Err(e) => Err(e),
        },
        TypeView::I32 => match int_key(key, i32::MIN as int, i32::MAX as int, "i32"@) {
            Ok(n) => Ok(ValView::I32(n as i32)),
            Err(e) => Err(e),
        },
        TypeView::U64 => match int_key(key, 0, u64::MAX as int, "u64"@) {
            Ok(n) => Ok(ValView::U64(n as u64)),
            Err(e) => Err(e),
        },
        TypeView::I64 => match int_key(key, i64::MIN as int, i64::MAX as int, "i64"@) {
            Ok(n) => Ok(ValView::I64(n as i64)),
            Err(e) => Err(e),
        },
        _ => Err(
            "map keys of type "@ + type_shown(key_type)
                + " must be supplied via a whole-argument {\"__xdr\": ...} map"@,
        ),
    }
}

fn unsigned_key(key: &str, max: u128, kind: &str) -> (r: Result<u128, Failure>)
    ensures
        match r {
            Ok(n) => n <= max && int_key(key@, 0, max as int, kind@) == Ok::<int, Seq<char>>(
                n as int,
            ),
            Err(e) => int_key(key@, 0, max as int, kind@) == Err::<int, Seq<char>>(e@),
        },
{
    match parse_unsigned(key, max) {
        Ok(n) => Ok(n),
        Err(_) => Err(Failure::new(cat5("invalid ", kind, " map key `", key, "`"))),
    }
}

fn signed_key(key: &str, min: i128, max: i128, kind: &str) -> (r: Result<i128, Failure>)
    requires
        min < 0 <= max,
    ensures
        match r {
            Ok(n) => min <= n <= max && int_key(key@, min as int, max as int, kind@) == Ok::<
                int,
                Seq<char>,
            >(n as int),
            Err(e) => int_key(key@, min as int, max as int, kind@) == Err::<int, Seq<char>>(e@),
        },
{
    match parse_signed(key, min, max) {
        Ok(n) => Ok(n),
        Err(_) => Err(Failure::new(cat5("invalid ", kind, " map key `", key, "`"))),
    }
}

/// Whether a value is a key as a map with keys of a type has them.
pub open spec fn is_key_of(v: ValView, key_type: TypeView) -> bool {
    &&& fits(v)
    &&& match key_type {
        TypeView::Symbol => v is Symbol,
        TypeView::String => v is String,
        TypeView::Address | TypeView::MuxedAddress => v matches ValView::Address(a) && (
        a is Account || a is Contract),
        TypeView::Bool => v is Bool,
        TypeView::U32 => v is U32,
        TypeView::I32 => v is I32,
        TypeView::U64 => v is U64,
        TypeView::I64 => v is I64,
        _ => false,
    }
}

/// Reads a key of a JSON object as a map's key.
pub fn json_key_to_scval(key: &str, key_type: &TypeDef) -> (r: Result<Val, Failure>)
    ensures
        told(r) == key_of(key@, key_type@),
        r matches Ok(v) ==> is_key_of(v@, key_type@),
{
    match key_type {
        TypeDef::Symbol => match symbol_from_str(key) {
            Ok(b) => Ok(Val::Symbol(b)),
            Err(e) => Err(e),
        },
        TypeDef::String => match parse_wire_text(key) {
            Some(b) => Ok(Val::String(b)),
            None => Err(Failure::of("map key string too long")),
        },
        TypeDef::Address | TypeDef::MuxedAddress => match address_from_str(key) {
            Ok(a) => Ok(Val::Address(a)),
            Err(e) => Err(e),
        },
        TypeDef::Bool => if text_eq(key, "true") {
            Ok(Val::Bool(true))
        } else if text_eq(key, "false") {
            Ok(Val::Bool(false))
        } else {
            Err(Failure::new(cat3("invalid boolean map key `", key, "`")))
        },
        TypeDef::U32 => match unsigned_key(key, u32::MAX as u128, "u32") {
            Ok(n) => Ok(Val::U32(n as u32)),
            Err(e) => Err(e),
        },
        TypeDef::I32 => match signed_key(key, i32::MIN as i128, i32::MAX as i128, "i32") {
            Ok(n) => Ok(Val::I32(n as i32)),
            Err(e) => Err(e),
        },
        TypeDef::U64 => match unsigned_key(key, u64::MAX as u128, "u64") {
            Ok(n) => Ok(Val::U64(n as u64)),
            Err(e) => Err(e),
        },
        TypeDef::I64 => match signed_key(key, i64::MIN as i128, i64::MAX as i128, "i64") {
            Ok(n) => Ok(Val::I64(n as i64)),
            Err(e) => Err(e),
        },
        _ => Err(
            Failure::new(
                cat3(
                    "map keys of type ",
                    key_type.to_debug().as_str(),
                    " must be supplied via a whole-argument {\"__xdr\": ...} map",
                ),
            ),
        ),
    }
}

/// The value of an enum that a JSON value denotes.
pub open spec fn enum_val(e: EnumView, value: JsonView) -> Result<ValView, Seq<char>> {
    match value.u64_value() {
        Some(n) => if n > u32::MAX {
            Err("enum value out of range"@)
        } else if exists|i: int| 0 <= i < e.cases.len() && (#[trigger] e.cases[i]).value == n {
            Ok(ValView::U32(n as u32))
        } else {
            Err("enum `"@ + e.name + "` has no case with value "@ + decimal(n as int))
        },
        None => match value.str_value() {
            Some(s) => match find_enum_case(e, s) {
                Some(c) => Ok(ValView::U32(c.value)),
                None => Err("enum `"@ + e.name + "` has no case `"@ + s + "`"@),
            },
            None => Err("expected a case name string or integer for enum `"@ + e.name + "`"@),
        },
    }
}

/// Reads a value of an enum: the name of a case, or its number.
pub fn enum_to_scval(e: &EnumDef, value: &Json) -> (r: Result<Val, Failure>)
    ensures
        told(r) == enum_val(e@, value@),
{
    if let Some(n) = value.as_u64() {
        if n > u32::MAX as u64 {
            return Err(Failure::of("enum value out of range"));
        }
        let mut i: usize = 0;
        while i < e.cases.len()
            invariant
                i <= e.cases@.len(),
                n <= u32::MAX,
                value@.u64_value() == Some(n),
                forall|k: int| 0 <= k < i ==> (#[trigger] e@.cases[k]).value != n,
            decreases e.cases@.len() - i,
        {
            assert(e@.cases[i as int].value == e.cases@[i as int].value);
            if e.cases[i].value as u64 == n {
                return Ok(Val::U32(n as u32));
            }
            i += 1;
        }
        return Err(
            Failure::new(
                cat2(
                    cat3("enum `", e.name.as_str(), "` has no case with value ").as_str(),
                    unsigned_text(n as u128).as_str(),
                ),
            ),
        );
    }
    match value.as_str() {
        Some(s) => match enum_case(e, s) {
            Some(c) => Ok(Val::U32(c.value)),
            None => Err(
                Failure::new(cat5("enum `", e.name.as_str(), "` has no case `", s, "`")),
            ),
        },
        None => Err(
            Failure::new(
                cat3("expected a case name string or integer for enum `", e.name.as_str(), "`"),
            ),
        ),
    }
}

/// The value of an enum of errors that a JSON value denotes.
pub open spec fn error_enum_val(e: EnumView, value: JsonView) -> Result<ValView, Seq<char>> {
    match value.u64_value() {
        Some(n) => if n > u32::MAX {
            Err("error enum value out of range"@)
        } else {
            Ok(ValView::U32(n as u32))
        },
        None => match value.str_value() {
            Some(s) => match find_enum_case(e, s) {
                Some(c) => Ok(ValView::U32(c.value)),
                None => Err("error enum `"@ + e.name + "` has no case `"@ + s + "`"@),
            },
            None => Err(
                "expected a case name string or integer for error enum `"@ + e.name + "`"@,
            ),
        },
    }
}

/// Reads a value of an enum of errors: the name of a case, or any number.
pub fn error_enum_to_scval(e: &EnumDef, value: &Json) -> (r: Result<Val, Failure>)
    ensures
        told(r) == error_enum_val(e@, value@),
{
    if let Some(n) = value.as_u64() {
        if n > u32::MAX as u64 {
            return Err(Failure::of("error enum value out of range"));
        }
        return Ok(Val::U32(n as u32));
    }
    match value.as_str() {
        Some(s) => match enum_case(e, s) {
            Some(c) => Ok(Val::U32(c.value)),
            None => Err(
                Failure::new(cat5("error enum `", e.name.as_str(), "` has no case `", s, "`")),
            ),
        },
        None => Err(
            Failure::new(
                cat3(
                    "expected a case name string or integer for error enum `",
                    e.name.as_str(),
                    "`",
                ),
            ),
        ),
    }
}

/// The types of the elements of a list: one for all, one for each, or those of
/// the fields of a struct.
#[derive(Clone, Copy)]
pub enum ListTypes<'a> {
    Each(&'a TypeDef),
    Listed(&'a Vec<TypeDef>),
    Fields(&'a Vec<Field>),
}

pub enum ListTypesView {
    Each(TypeView),
    Listed(Seq<TypeView>),
    Fields(Seq<FieldView>),
}

impl ListTypesView {
    /// The type of the `i`-th element.
    pub open spec fn at(self, i: int) -> TypeView {
        match self {
            ListTypesView::Each(t) => t,
            ListTypesView::Listed(types) => types[i],
            ListTypesView::Fields(fields) => fields[i].type_,
        }
    }

    /// Whether there is a type for each of `n` elements.
    pub open spec fn covers(self, n: int) -> bool {
        match self {
            ListTypesView::Each(_) => true,
            ListTypesView::Listed(types) => n <= types.len(),
            ListTypesView::Fields(fields) => n <= fields.len(),
        }
    }
}

impl<'a> View for ListTypes<'a> {
    type V = ListTypesView;

    open spec fn view(&self) -> ListTypesView {
        match *self {
            ListTypes::Each(t) => ListTypesView::Each(t@),
            ListTypes::Listed(types) => ListTypesView::Listed(type_views(types@)),
            ListTypes::Fields(fields) => ListTypesView::Fields(field_views(fields@)),
        }
    }
}

impl<'a> ListTypes<'a> {
    fn at(&self, i: usize) -> (r: &'a TypeDef)
        requires
            self@.covers(i + 1),
        ensures
            r@ == self@.at(i as int),
    {
        match *self {
            ListTypes::Each(t) => t,
            ListTypes::Listed(types) => &types[i],
            ListTypes::Fields(fields) => &fields[i].type_,
        }
    }
}

/// A list of values as a value, or the complaint that it is too long.
pub open spec fn list_val(r: Result<Seq<ValView>, Seq<char>>, complaint: Seq<char>) -> Result<
    ValView,
    Seq<char>,
> {
    match r {
        Err(e) => Err(e),
        Ok(vals) => if vals.len() <= u32::MAX {
            Ok(ValView::Vec(Some(vals)))
        } else {
            Err(complaint)
        },
    }
}

/// Entries as a map in the order of its keys, or the complaint that it is too
/// large.
pub open spec fn map_val(
    r: Result<Seq<(ValView, ValView)>, Seq<char>>,
    complaint: Seq<char>,
) -> Result<ValView, Seq<char>> {
    match r {
        Err(e) => Err(e),
        Ok(entries) => if entries.len() <= u32::MAX {
            Ok(ValView::Mapping(Some(sorted(entries))))
        } else {
            Err(complaint)
        },
    }
}

/// Whether the fields of a struct are numbered: their names are 0, 1, 2 and so
/// on, and there is at least one.
pub open spec fn is_tuple_struct(s: StructView) -> bool {
    &&& s.fields.len() > 0
    &&& forall|i: int|
        0 <= i < s.fields.len() ==> (#[trigger] s.fields[i]).name == decimal(i)
}

/// The value that a JSON value denotes, read as a type.
pub open spec fn val_of(value: JsonView, ty: TypeView, spec: SpecView) -> Result<ValView, Seq<char>>
    decreases value, 3int, ty, 0int,
{
    match value.at_key("__xdr"@) {
        Some(x) => match val_of_json(canonical(x)) {
            Ok(v) => Ok(v),
            Err(e) => Err("invalid `__xdr` escape-hatch value: "@ + e),
        },
        None => match ty {
            TypeView::Val => Err("`val` args must be supplied via {\"__xdr\": ...}"@),
            TypeView::Bool => match value.bool_value() {
                Some(b) => Ok(ValView::Bool(b)),
                None => Err("expected a boolean"@),
            },
            TypeView::Void => Ok(ValView::Void),
            TypeView::Error => Err("`error` values cannot be supplied as arguments"@),
            TypeView::U32 => match u64_of(value) {
                Err(e) => Err(e),
                Ok(n) => if n <= u32::MAX {
                    Ok(ValView::U32(n as u32))
                } else {
                    Err("u32 value out of range"@)
                },
            },
            TypeView::I32 => match i64_of(value) {
                Err(e) => Err(e),
                Ok(n) => if i32::MIN <= n <= i32::MAX {
                    Ok(ValView::I32(n as i32))
                } else {
                    Err("i32 value out of range"@)
                },
            },
            TypeView::U64 => match u64_of(value) {
                Err(e) => Err(e),
                Ok(n) => Ok(ValView::U64(n as u64)),
            },
            TypeView::I64 => match i64_of(value) {
                Err(e) => Err(e),
                Ok(n) => Ok(ValView::I64(n as i64)),
            },
            TypeView::Timepoint => match u64_of(value) {
                Err(e) => Err(e),
                Ok(n) => Ok(ValView::Timepoint(n as u64)),
            },
            TypeView::Duration => match u64_of(value) {
                Err(e) => Err(e),
                Ok(n) => Ok(ValView::Duration(n as u64)),
            },
            TypeView::U128 => match u128_of(value) {
                Err(e) => Err(e),
                Ok(n) => Ok(ValView::U128(u128_parts(n))),
            },
            TypeView::I128 => match i128_of(value) {
                Err(e) => Err(e),
                Ok(n) => Ok(ValView::I128(i128_parts(n))),
            },
            TypeView::U256 => Err("u256 args must be supplied via {\"__xdr\": ...}"@),
            TypeView::I256 => Err("i256 args must be supplied via {\"__xdr\": ...}"@),
            TypeView::Bytes => match bytes_of(value) {
                Err(e) => Err(e),
                Ok(b) => if b.len() <= u32::MAX {
                    Ok(ValView::Bytes(b))
                } else {
                    Err("bytes value too long"@)
                },
            },
            TypeView::String => match value.str_value() {
                None => Err("expected a string"@),
                Some(s) => match wire_bytes(s) {
                    Some(b) => Ok(ValView::String(b)),
                    None => Err("string value too long"@),
                },
            },
            TypeView::Symbol => match value.str_value() {
                None => Err("expected a string for symbol"@),
                Some(s) => match symbol_of(s) {
                    Ok(b) => Ok(ValView::Symbol(b)),
                    Err(e) => Err(e),
                },
            },
            TypeView::Address | TypeView::MuxedAddress => match value.str_value() {
                None => Err("expected an address string"@),
                Some(s) => match address_of(s) {
                    Ok(a) => Ok(ValView::Address(a)),
                    Err(e) => Err(e),
                },
            },
            TypeView::Option(inner) => if value is Null {
                Ok(ValView::Void)
            } else {
                val_of(value, *inner, spec)
            },
            TypeView::Result(_, _) => Err(
                "result-typed args must be supplied via {\"__xdr\": ...}"@,
            ),
            TypeView::Vec(elem) => match value {
                JsonView::Array(items) => list_val(
                    vals_upto(items, ListTypesView::Each(*elem), spec, items.len() as int),
                    "vec value too long"@,
                ),
                _ => Err("expected an array"@),
            },
            TypeView::Mapping(key_type, value_type) => match value {
                JsonView::Object(pairs) => map_val(
                    entries_upto(pairs, *key_type, *value_type, spec, pairs.len() as int),
                    "map value too large"@,
                ),
                _ => Err("expected an object for a map argument"@),
            },
            TypeView::Tuple(types) => match value {
                JsonView::Array(items) => if items.len() != types.len() {
                    Err(
                        "tuple arity mismatch: expected "@ + decimal(types.len() as int)
                            + " element(s), got "@ + decimal(items.len() as int),
                    )
                } else {
                    list_val(
                        vals_upto(items, ListTypesView::Listed(types), spec, items.len() as int),
                        "tuple value too long"@,
                    )
                },
                _ => Err("expected an array for a tuple argument"@),
            },
            TypeView::BytesN(n) => match bytes_of(value) {
                Err(e) => Err(e),
                Ok(b) => if b.len() != n {
                    Err(
                        "expected exactly "@ + decimal(n as int) + " byte(s), got "@ + decimal(
                            b.len() as int,
                        ),
                    )
                } else {
                    Ok(ValView::Bytes(b))
                },
            },
            TypeView::Udt(name) => udt_val(lossy_text(name), value, spec),
        },
    }
}

/// The first `n` of a list of JSON values, each read as its type, or the first
/// failure among them.
pub open spec fn vals_upto(
    items: Seq<JsonView>,
    types: ListTypesView,
    spec: SpecView,
    n: int,
) -> Result<Seq<ValView>, Seq<char>>
    decreases items, 0int, TypeView::Void, n,
{
    if n <= 0 || n > items.len() {
        Ok(Seq::empty())
    } else {
        match vals_upto(items, types, spec, n - 1) {
            Err(e) => Err(e),
            Ok(vals) => match val_of(items[n - 1], types.at(n - 1), spec) {
                Err(e) => Err(e),
                Ok(v) => Ok(vals.push(v)),
            },
        }
    }
}

/// The first `n` pairs of an object as entries of a map, or the first failure
/// among them.
pub open spec fn entries_upto(
    pairs: Seq<(Seq<char>, JsonView)>,
    key_type: TypeView,
    value_type: TypeView,
    spec: SpecView,
    n: int,
) -> Result<Seq<(ValView, ValView)>, Seq<char>>
    decreases pairs, 0int, TypeView::Void, n,
{
    if n <= 0 || n > pairs.len() {
        Ok(Seq::empty())
    } else {
        match entries_upto(pairs, key_type, value_type, spec, n - 1) {
            Err(e) => Err(e),
            Ok(entries) => match key_of(pairs[n - 1].0, key_type) {
                Err(e) => Err(e),
                Ok(key) => match val_of(pairs[n - 1].1, value_type, spec) {
                    Err(e) => Err(e),
                    Ok(v) => Ok(entries.push((key, v))),
                },
            },
        }
    }
}

/// The first `n` fields of a struct as entries of a map, each from the pair of
/// its name, or the first failure among them.
pub open spec fn fields_upto(
    pairs: Seq<(Seq<char>, JsonView)>,
    s: StructView,
    spec: SpecView,
    n: int,
) -> Result<Seq<(ValView, ValView)>, Seq<char>>
    decreases pairs, 0int, TypeView::Void, n,
{
    if n <= 0 || n > s.fields.len() {
        Ok(Seq::empty())
    } else {
        match fields_upto(pairs, s, spec, n - 1) {
            Err(e) => Err(e),
            Ok(entries) => {
                let name = s.fields[n - 1].name;
                let i = key_index(pairs, name);
                if 0 <= i < pairs.len() {
                    match symbol_of(name) {
                        Err(e) => Err(e),
                        Ok(b) => match val_of(pairs[i].1, s.fields[n - 1].type_, spec) {
                            Err(e) => Err(e),
                            Ok(v) => Ok(entries.push((ValView::Symbol(b), v))),
                        },
                    }
                } else {
                    Err("struct `"@ + s.name + "` is missing field `"@ + name + "`"@)
                }
            },
        }
    }
}

/// The value that a JSON value denotes, read as a type that the contract
/// defines.
pub open spec fn udt_val(name: Seq<char>, value: JsonView, spec: SpecView) -> Result<
    ValView,
    Seq<char>,
>
    decreases value, 2int, TypeView::Void, 0int,
{
    match spec.find_struct(name) {
        Some(s) => struct_val(s, value, spec),
        None => if spec.find_union(name) is Some {
            union_val(name, value, spec)
        } else {
            match spec.find_enum(name) {
                Some(e) => enum_val(e, value),
                None => match spec.find_error_enum(name) {
                    Some(e) => error_enum_val(e, value),
                    None => Err(
                        "contract spec does not define user-defined type `"@ + name + "`"@,
                    ),
                },
            }
        },
    }
}

/// The value that a JSON value denotes, read as a struct.
pub open spec fn struct_val(s: StructView, value: JsonView, spec: SpecView) -> Result<
    ValView,
    Seq<char>,
>
    decreases value, 1int, TypeView::Void, 0int,
{
    if is_tuple_struct(s) {
        match value {
            JsonView::Array(items) => if items.len() != s.fields.len() {
                Err(
                    "struct `"@ + s.name + "` expects "@ + decimal(s.fields.len() as int)
                        + " field(s), got "@ + decimal(items.len() as int),
                )
            } else {
                list_val(
                    vals_upto(items, ListTypesView::Fields(s.fields), spec, items.len() as int),
                    "struct `"@ + s.name + "` has too many fields"@,
                )
            },
            _ => Err("expected an array for tuple struct `"@ + s.name + "`"@),
        }
    } else {
        match value {
            JsonView::Object(pairs) => map_val(
                fields_upto(pairs, s, spec, s.fields.len() as int),
                "struct `"@ + s.name + "` has too many fields"@,
            ),
            _ => Err("expected an object for struct `"@ + s.name + "`"@),
        }
    }
}

/// The value of a union's case with arguments, or the complaint about the case.
pub open spec fn case_val(
    union_name: Seq<char>,
    case_name: Seq<char>,
    spec: SpecView,
    given: int,
    args: Result<Seq<ValView>, Seq<char>>,
) -> Result<ValView, Seq<char>> {
    match spec.find_union_case(union_name, case_name) {
        None => Err("union `"@ + union_name + "` has no case `"@ + case_name + "`"@),
        Some(case) => match symbol_of(case_name) {
            Err(e) => Err(e),
            Ok(b) => match case.types {
                None => if given > 0 {
                    Err(
                        "case `"@ + case_name + "` of union `"@ + union_name
                            + "` takes no arguments"@,
                    )
                } else {
                    Ok(ValView::Vec(Some(seq![ValView::Symbol(b)])))
                },
                Some(types) => if given != types.len() {
                    Err(
                        "case `"@ + case_name + "` of union `"@ + union_name + "` expects "@
                            + decimal(types.len() as int) + " argument(s), got "@ + decimal(given),
                    )
                } else {
                    match args {
                        Err(e) => Err(e),
                        Ok(vals) => list_val(
                            Ok(seq![ValView::Symbol(b)] + vals),
                            "union value too large"@,
                        ),
                    }
                },
            },
        },
    }
}

/// The types of the values that a union's case carries.
pub open spec fn case_types(union_name: Seq<char>, case_name: Seq<char>, spec: SpecView) -> Seq<
    TypeView,
> {
    match spec.find_union_case(union_name, case_name) {
        Some(case) => match case.types {
            Some(types) => types,
            None => Seq::empty(),
        },
        None => Seq::empty(),
    }
}

/// The value that a JSON value denotes, read as a union.
pub open spec fn union_val(name: Seq<char>, value: JsonView, spec: SpecView) -> Result<
    ValView,
    Seq<char>,
>
    decreases value, 1int, TypeView::Void, 0int,
{
    match value {
        JsonView::String(case) => case_val(name, case, spec, 0, Ok(Seq::empty())),
        JsonView::Object(pairs) => if pairs.len() == 1 {
            let case = pairs[0].0;
            let types = case_types(name, case, spec);
            match pairs[0].1 {
                JsonView::Array(items) => case_val(
                    name,
                    case,
                    spec,
                    items.len() as int,
                    vals_upto(items, ListTypesView::Listed(types), spec, items.len() as int),
                ),
                JsonView::Null => case_val(name, case, spec, 0, Ok(Seq::empty())),
                _ => case_val(
                    name,
                    case,
                    spec,
                    1,
                    match val_of(pairs[0].1, types[0], spec) {
                        Ok(v) => Ok(seq![v]),
                        Err(e) => Err(e),
                    },
                ),
            }
        } else {
            Err(
                "expected a case name string, or a single-key object of {\"CaseName\": [args...]}, for union `"@
                    + name + "`"@,
            )
        },
        _ => Err(
            "expected a case name string, or a single-key object of {\"CaseName\": [args...]}, for union `"@
                + name + "`"@,
        ),
    }
}

/// Once an element fails, the list fails in the same way.
proof fn lemma_vals_fail(items: Seq<JsonView>, types: ListTypesView, spec: SpecView, k: int, n: int)
    requires
        0 <= k <= n <= items.len(),
        vals_upto(items, types, spec, k) is Err,
    ensures
        vals_upto(items, types, spec, n) == vals_upto(items, types, spec, k),
    decreases n,
{
    if k < n {
        lemma_vals_fail(items, types, spec, k, n - 1);
    }
}

/// Once a pair fails, the object fails in the same way.
proof fn lemma_entries_fail(
    pairs: Seq<(Seq<char>, JsonView)>,
    key_type: TypeView,
    value_type: TypeView,
    spec: SpecView,
    k: int,
    n: int,
)
    requires
        0 <= k <= n <= pairs.len(),
        entries_upto(pairs, key_type, value_type, spec, k) is Err,
    ensures
        entries_upto(pairs, key_type, value_type, spec, n) == entries_upto(
            pairs,
            key_type,
            value_type,
            spec,
            k,
        ),
    decreases n,
{
    if k < n {
        lemma_entries_fail(pairs, key_type, value_type, spec, k, n - 1);
    }
}

/// Once a field fails, the struct fails in the same way.
proof fn lemma_fields_fail(
    pairs: Seq<(Seq<char>, JsonView)>,
    s: StructView,
    spec: SpecView,
    k: int,
    n: int,
)
    requires
        0 <= k <= n <= s.fields.len(),
        fields_upto(pairs, s, spec, k) is Err,
    ensures
        fields_upto(pairs, s, spec, n) == fields_upto(pairs, s, spec, k),
    decreases n,
{
    if k < n {
        lemma_fields_fail(pairs, s, spec, k, n - 1);
    }
}

/// What a list of values, or the failure to make one, stands for.
pub open spec fn told_vals(r: Result<Vec<Val>, Failure>) -> Result<Seq<ValView>, Seq<char>> {
    match r {
        Ok(vals) => Ok(val_views(vals@)),
        Err(e) => Err(e@),
    }
}

/// What entries, or the failure to make them, stand for.
pub open spec fn told_entries(r: Result<Vec<(Val, Val)>, Failure>) -> Result<
    Seq<(ValView, ValView)>,
    Seq<char>,
> {
    match r {
        Ok(entries) => Ok(entry_views(entries@)),
        Err(e) => Err(e@),
    }
}

fn list_to_scval(r: Result<Vec<Val>, Failure>, complaint: &str) -> (v: Result<Val, Failure>)
    ensures
        told(v) == list_val(told_vals(r), complaint@),
{
    match r {
        Err(e) => Err(e),
        Ok(vals) => if vals.len() as u64 <= u32::MAX as u64 {
            Ok(Val::Vec(Some(vals)))
        } else {
            Err(Failure::of(complaint))
        },
    }
}

fn entries_to_scval(r: Result<Vec<(Val, Val)>, Failure>, complaint: &str) -> (v: Result<
    Val,
    Failure,
>)
    requires
        r matches Ok(entries) ==> comparable(entry_views(entries@)),
    ensures
        told(v) == map_val(told_entries(r), complaint@),
        v matches Ok(m) ==> m@ matches ValView::Mapping(Some(e)) && in_key_order(e),
{
    match r {
        Err(e) => Err(e),
        Ok(entries) => if entries.len() as u64 <= u32::MAX as u64 {
            proof {
                law_entries_are_sorted(entry_views(entries@), ValView::Void);
            }
            Ok(Val::Mapping(Some(sort_entries(entries))))
        } else {
            Err(Failure::of(complaint))
        },
    }
}

/// Reads a JSON value as a type of the contract's interface. An object with the
/// key `__xdr` is read as the value in it, whatever the type. A map has its entries
/// in the order of their keys.
pub fn json_to_scval(value: &Json, ty: &TypeDef, spec: &ContractSpec) -> (r: Result<Val, Failure>)
    ensures
        told(r) == val_of(value@, ty@, spec@),
        r is Ok && ty@ is Mapping && value@.at_key("__xdr"@) is None ==> (
        r->Ok_0@ matches ValView::Mapping(Some(e)) && in_key_order(e)),
    decreases value@, 3int, ty@, 0int,
{
    if let Some(x) = value.get("__xdr") {
        return match Val::from_json_notation(x) {
            Ok(v) => Ok(v),
            Err(e) => Err(
                Failure::new(cat2("invalid `__xdr` escape-hatch value: ", e.as_str())),
            ),
        };
    }
    proof {
        lemma_type_parts(ty@);
    }
    match ty {
        TypeDef::Val => Err(Failure::of("`val` args must be supplied via {\"__xdr\": ...}")),
        TypeDef::Bool => match value.as_bool() {
            Some(b) => Ok(Val::Bool(b)),
            None => Err(Failure::of("expected a boolean")),
        },
        TypeDef::Void => Ok(Val::Void),
        TypeDef::Error => Err(Failure::of("`error` values cannot be supplied as arguments")),
        TypeDef::U32 => match as_u64(value) {
            Err(e) => Err(e),
            Ok(n) => if n <= u32::MAX as u64 {
                Ok(Val::U32(n as u32))
            } else {
                Err(Failure::of("u32 value out of range"))
            },
        },
        TypeDef::I32 => match as_i64(value) {
            Err(e) => Err(e),
            Ok(n) => if i32::MIN as i64 <= n && n <= i32::MAX as i64 {
                Ok(Val::I32(n as i32))
            } else {
                Err(Failure::of("i32 value out of range"))
            },
        },
        TypeDef::U64 => match as_u64(value) {
            Err(e) => Err(e),
            Ok(n) => Ok(Val::U64(n)),
        },
        TypeDef::I64 => match as_i64(value) {
            Err(e) => Err(e),
            Ok(n) => Ok(Val::I64(n)),
        },
        TypeDef::Timepoint => match as_u64(value) {
            Err(e) => Err(e),
            Ok(n) => Ok(Val::Timepoint(n)),
        },
        TypeDef::Duration => match as_u64(value) {
            Err(e) => Err(e),
            Ok(n) => Ok(Val::Duration(n)),
        },
        TypeDef::U128 => match as_u128(value) {
            Err(e) => Err(e),
            Ok(n) => Ok(Val::U128(u128_to_parts(n))),
        },
        TypeDef::I128 => match as_i128(value) {
            Err(e) => Err(e),
            Ok(n) => Ok(Val::I128(i128_to_parts(n))),
        },
        TypeDef::U256 => Err(Failure::of("u256 args must be supplied via {\"__xdr\": ...}")),
        TypeDef::I256 => Err(Failure::of("i256 args must be supplied via {\"__xdr\": ...}")),
        TypeDef::Bytes => match bytes_from_json(value) {
            Err(e) => Err(e),
            Ok(b) => if b.len() as u64 <= u32::MAX as u64 {
                Ok(Val::Bytes(b))
            } else {
                Err(Failure::of("bytes value too long"))
            },
        },
        TypeDef::String => match value.as_str() {
            None => Err(Failure::of("expected a string")),
            Some(s) => match parse_wire_text(s) {
                Some(b) => Ok(Val::String(b)),
                None => Err(Failure::of("string value too long")),
            },
        },
        TypeDef::Symbol => match value.as_str() {
            None => Err(Failure::of("expected a string for symbol")),
            Some(s) => match symbol_from_str(s) {
                Ok(b) => Ok(Val::Symbol(b)),
                Err(e) => Err(e),
            },
        },
        TypeDef::Address | TypeDef::MuxedAddress => match value.as_str() {
            None => Err(Failure::of("expected an address string")),
            Some(s) => match address_from_str(s) {
                Ok(a) => Ok(Val::Address(a)),
                Err(e) => Err(e),
            },
        },
        TypeDef::Option(inner) => match value {
            Json::Null => Ok(Val::Void),
            _ => json_to_scval(value, inner, spec),
        },
        TypeDef::Result(_, _) => Err(
            Failure::of("result-typed args must be supplied via {\"__xdr\": ...}"),
        ),
        TypeDef::Vec(elem) => match value {
            Json::Array(items) => {
                proof {
                    lemma_array_part(value@, json_views(items@));
                }
                list_to_scval(
                    list_to_scvals(items, ListTypes::Each(elem), spec),
                    "vec value too long",
                )
            },
            _ => Err(Failure::of("expected an array")),
        },
        TypeDef::Mapping(key_type, value_type) => match value {
            Json::Object(pairs) => {
                proof {
                    lemma_object_part(value@, pair_views(pairs@));
                }
                entries_to_scval(
                    pairs_to_entries(pairs, key_type, value_type, spec),
                    "map value too large",
                )
            },
            _ => Err(Failure::of("expected an object for a map argument")),
        },
        TypeDef::Tuple(types) => match value {
            Json::Array(items) => if items.len() != types.len() {
                Err(
                    Failure::new(
                        cat2(
                            cat3(
                                "tuple arity mismatch: expected ",
                                unsigned_text(types.len() as u128).as_str(),
                                " element(s), got ",
                            ).as_str(),
                            unsigned_text(items.len() as u128).as_str(),
                        ),
                    ),
                )
            } else {
                proof {
                    lemma_array_part(value@, json_views(items@));
                }
                list_to_scval(
                    list_to_scvals(items, ListTypes::Listed(types), spec),
                    "tuple value too long",
                )
            },
            _ => Err(Failure::of("expected an array for a tuple argument")),
        },
        TypeDef::BytesN(n) => match bytes_from_json(value) {
            Err(e) => Err(e),
            Ok(b) => if b.len() as u64 != *n as u64 {
                Err(
                    Failure::new(
                        cat2(
                            cat3(
                                "expected exactly ",
                                unsigned_text(*n as u128).as_str(),
                                " byte(s), got ",
                            ).as_str(),
                            unsigned_text(b.len() as u128).as_str(),
                        ),
                    ),
                )
            } else {
                Ok(Val::Bytes(b))
            },
        },
        TypeDef::Udt(name) => udt_to_scval(render_bytes(name).as_str(), value, spec),
    }
}

proof fn lemma_array_part(value: JsonView, items: Seq<JsonView>)
    requires
        value == JsonView::Array(items),
    ensures
        decreases_to!(value => items),
{
    assert(decreases_to!(value => value->Array_0));
}

proof fn lemma_object_part(value: JsonView, pairs: Seq<(Seq<char>, JsonView)>)
    requires
        value == JsonView::Object(pairs),
    ensures
        decreases_to!(value => pairs),
{
    assert(decreases_to!(value => value->Object_0));
}

proof fn lemma_pair_part(pairs: Seq<(Seq<char>, JsonView)>, i: int)
    requires
        0 <= i < pairs.len(),
    ensures
        decreases_to!(pairs => pairs[i].1),
{
    assert(decreases_to!(pairs => pairs[i]));
    assert(decreases_to!(pairs[i] => pairs[i].1));
}

/// Reads JSON values one by one, each as its type.
fn list_to_scvals(items: &Vec<Json>, types: ListTypes<'_>, spec: &ContractSpec) -> (r: Result<
    Vec<Val>,
    Failure,
>)
    requires
        types@.covers(items@.len() as int),
    ensures
        told_vals(r) == vals_upto(json_views(items@), types@, spec@, items@.len() as int),
    decreases json_views(items@), 0int, TypeView::Void, 0int,
{
    let ghost shown = json_views(items@);
    let mut out: Vec<Val> = Vec::new();
    assert(val_views(out@) =~= Seq::empty());
    let mut i: usize = 0;
    while i < items.len()
        invariant
            i <= items@.len(),
            shown == json_views(items@),
            types@.covers(items@.len() as int),
            vals_upto(shown, types@, spec@, i as int) == Ok::<Seq<ValView>, Seq<char>>(
                val_views(out@),
            ),
        decreases items@.len() - i,
    {
        proof {
            assert(shown[i as int] == items@[i as int]@);
            assert(decreases_to!(shown => shown[i as int]));
        }
        match json_to_scval(&items[i], types.at(i), spec) {
            Ok(v) => {
                let ghost before = val_views(out@);
                out.push(v);
                assert(val_views(out@) =~= before.push(v@));
            },
            Err(e) => {
                proof {
                    lemma_vals_fail(shown, types@, spec@, i + 1, items@.len() as int);
                }
                return Err(e);
            },
        }
        i += 1;
    }
    Ok(out)
}

/// Reads the pairs of an object as entries of a map.
fn pairs_to_entries(
    pairs: &Vec<(String, Json)>,
    key_type: &TypeDef,
    value_type: &TypeDef,
    spec: &ContractSpec,
) -> (r: Result<Vec<(Val, Val)>, Failure>)
    ensures
        told_entries(r) == entries_upto(
            pair_views(pairs@),
            key_type@,
            value_type@,
            spec@,
            pairs@.len() as int,
        ),
        r matches Ok(entries) ==> comparable(entry_views(entries@)),
    decreases pair_views(pairs@), 0int, TypeView::Void, 0int,
{
    let ghost shown = pair_views(pairs@);
    let mut out: Vec<(Val, Val)> = Vec::new();
    assert(entry_views(out@) =~= Seq::empty());
    let mut i: usize = 0;
    while i < pairs.len()
        invariant
            i <= pairs@.len(),
            shown == pair_views(pairs@),
            entries_upto(shown, key_type@, value_type@, spec@, i as int) == Ok::<
                Seq<(ValView, ValView)>,
                Seq<char>,
            >(entry_views(out@)),
            out@.len() == i,
            forall|k: int| 0 <= k < i ==> is_key_of((#[trigger] out@[k]).0@, key_type@),
        decreases pairs@.len() - i,
    {
        proof {
            assert(shown[i as int] == (pairs@[i as int].0@, pairs@[i as int].1@));
            lemma_pair_part(shown, i as int);
        }
        let key = match json_key_to_scval(pairs[i].0.as_str(), key_type) {
            Ok(key) => key,
            Err(e) => {
                proof {
                    lemma_entries_fail(
                        shown,
                        key_type@,
                        value_type@,
                        spec@,
                        i + 1,
                        pairs@.len() as int,
                    );
                }
                return Err(e);
            },
        };
        let v = match json_to_scval(&pairs[i].1, value_type, spec) {
            Ok(v) => v,
            Err(e) => {
                proof {
                    lemma_entries_fail(
                        shown,
                        key_type@,
                        value_type@,
                        spec@,
                        i + 1,
                        pairs@.len() as int,
                    );
                }
                return Err(e);
            },
        };
        let ghost before = entry_views(out@);
        out.push((key, v));
        assert(entry_views(out@) =~= before.push((key@, v@)));
        i += 1;
    }
    proof {
        assert forall|a: int, b: int| 0 <= a < out@.len() && 0 <= b < out@.len() implies
            same_key_type(
            (#[trigger] entry_views(out@)[a]).0,
            (#[trigger] entry_views(out@)[b]).0,
        ) by {
            assert(is_key_of(out@[a].0@, key_type@));
            assert(is_key_of(out@[b].0@, key_type@));
        }
        assert forall|a: int| 0 <= a < out@.len() implies fits(
            (#[trigger] entry_views(out@)[a]).0,
        ) by {
            assert(is_key_of(out@[a].0@, key_type@));
        }
    }
    Ok(out)
}

/// Reads a JSON value as a type that the contract defines.
fn udt_to_scval(name: &str, value: &Json, spec: &ContractSpec) -> (r: Result<Val, Failure>)
    ensures
        told(r) == udt_val(name@, value@, spec@),
    decreases value@, 2int, TypeView::Void, 0int,
{
    if let Some(s) = spec.struct_def(name) {
        return struct_to_scval(s, value, spec);
    }
    if spec.union_def(name).is_some() {
        return union_to_scval(name, value, spec);
    }
    if let Some(e) = spec.enum_def(name) {
        return enum_to_scval(e, value);
    }
    if let Some(e) = spec.error_enum_def(name) {
        return error_enum_to_scval(e, value);
    }
    Err(
        Failure::new(cat3("contract spec does not define user-defined type `", name, "`")),
    )
}

/// Whether the fields of a struct are numbered.
fn has_numbered_fields(s: &StructDef) -> (r: bool)
    ensures
        r == is_tuple_struct(s@),
{
    let mut i: usize = 0;
    while i < s.fields.len()
        invariant
            i <= s.fields@.len(),
            forall|k: int| 0 <= k < i ==> (#[trigger] s@.fields[k]).name == decimal(k),
        decreases s.fields@.len() - i,
    {
        assert(s@.fields[i as int].name == s.fields@[i as int].name@);
        if !text_eq(s.fields[i].name.as_str(), unsigned_text(i as u128).as_str()) {
            return false;
        }
        i += 1;
    }
    s.fields.len() > 0
}

/// Reads the fields of a struct out of the pairs of an object.
fn fields_to_entries(pairs: &Vec<(String, Json)>, s: &StructDef, spec: &ContractSpec) -> (r: Result<
    Vec<(Val, Val)>,
    Failure,
>)
    ensures
        told_entries(r) == fields_upto(pair_views(pairs@), s@, spec@, s.fields@.len() as int),
        r matches Ok(entries) ==> comparable(entry_views(entries@)),
    decreases pair_views(pairs@), 0int, TypeView::Void, 0int,
{
    let ghost shown = pair_views(pairs@);
    let mut out: Vec<(Val, Val)> = Vec::new();
    assert(entry_views(out@) =~= Seq::empty());
    let mut i: usize = 0;
    while i < s.fields.len()
        invariant
            i <= s.fields@.len(),
            shown == pair_views(pairs@),
            fields_upto(shown, s@, spec@, i as int) == Ok::<Seq<(ValView, ValView)>, Seq<char>>(
                entry_views(out@),
            ),
            out@.len() == i,
            forall|k: int| 0 <= k < i ==> is_key_of((#[trigger] out@[k]).0@, TypeView::Symbol),
        decreases s.fields@.len() - i,
    {
        proof {
            assert(s@.fields[i as int] == s.fields@[i as int]@);
        }
        let fname = s.fields[i].name.as_str();
        let place = match find_key(pairs, fname) {
            Some(place) => place,
            None => {
                proof {
                    lemma_fields_fail(shown, s@, spec@, i + 1, s.fields@.len() as int);
                }
                return Err(
                    Failure::new(
                        cat5(
                            "struct `",
                            s.name.as_str(),
                            "` is missing field `",
                            fname,
                            "`",
                        ),
                    ),
                );
            },
        };
        proof {
            assert(shown[place as int] == (pairs@[place as int].0@, pairs@[place as int].1@));
            lemma_pair_part(shown, place as int);
        }
        let symbol = match symbol_from_str(fname) {
            Ok(symbol) => symbol,
            Err(e) => {
                proof {
                    lemma_fields_fail(shown, s@, spec@, i + 1, s.fields@.len() as int);
                }
                return Err(e);
            },
        };
        let v = match json_to_scval(&pairs[place].1, &s.fields[i].type_, spec) {
            Ok(v) => v,
            Err(e) => {
                proof {
                    lemma_fields_fail(shown, s@, spec@, i + 1, s.fields@.len() as int);
                }
                return Err(e);
            },
        };
        let ghost before = entry_views(out@);
        out.push((Val::Symbol(symbol), v));
        assert(entry_views(out@) =~= before.push((ValView::Symbol(symbol@), v@)));
        i += 1;
    }
    proof {
        assert forall|a: int, b: int| 0 <= a < out@.len() && 0 <= b < out@.len() implies
            same_key_type(
            (#[trigger] entry_views(out@)[a]).0,
            (#[trigger] entry_views(out@)[b]).0,
        ) by {
            assert(is_key_of(out@[a].0@, TypeView::Symbol));
            assert(is_key_of(out@[b].0@, TypeView::Symbol));
        }
        assert forall|a: int| 0 <= a < out@.len() implies fits(
            (#[trigger] entry_views(out@)[a]).0,
        ) by {
            assert(is_key_of(out@[a].0@, TypeView::Symbol));
        }
    }
    Ok(out)
}

/// Reads a JSON value as a struct: an array where the fields are numbered, and
/// otherwise an object.
fn struct_to_scval(s: &StructDef, value: &Json, spec: &ContractSpec) -> (r: Result<Val, Failure>)
    ensures
        told(r) == struct_val(s@, value@, spec@),
    decreases value@, 1int, TypeView::Void, 0int,
{
    let name = s.name.as_str();
    if has_numbered_fields(s) {
        match value {
            Json::Array(items) => if items.len() != s.fields.len() {
                Err(
                    Failure::new(
                        cat6(
                            "struct `",
                            name,
                            "` expects ",
                            unsigned_text(s.fields.len() as u128).as_str(),
                            " field(s), got ",
                            unsigned_text(items.len() as u128).as_str(),
                        ),
                    ),
                )
            } else {
                proof {
                    lemma_array_part(value@, json_views(items@));
                }
                list_to_scval(
                    list_to_scvals(items, ListTypes::Fields(&s.fields), spec),
                    cat3("struct `", name, "` has too many fields").as_str(),
                )
            },
            _ => Err(Failure::new(cat3("expected an array for tuple struct `", name, "`"))),
        }
    } else {
        match value {
            Json::Object(pairs) => {
                proof {
                    lemma_object_part(value@, pair_views(pairs@));
                }
                entries_to_scval(
                    fields_to_entries(pairs, s, spec),
                    cat3("struct `", name, "` has too many fields").as_str(),
                )
            },
            _ => Err(Failure::new(cat3("expected an object for struct `", name, "`"))),
        }
    }
}

/// Checks that a union has a case and that the case takes a number of arguments;
/// gives the case's symbol and the types of its arguments.
fn check_case<'a>(
    union_name: &str,
    case_name: &str,
    spec: &'a ContractSpec,
    given: usize,
    Ghost(args): Ghost<Result<Seq<ValView>, Seq<char>>>,
) -> (r: Result<(Vec<u8>, Option<&'a Vec<TypeDef>>), Failure>)
    ensures
        match r {
            Err(e) => case_val(union_name@, case_name@, spec@, given as int, args) == Err::<
                ValView,
                Seq<char>,
            >(e@),
            Ok((symbol, types)) => {
                &&& symbol_of(case_name@) == Ok::<Seq<u8>, Seq<char>>(symbol@)
                &&& spec@.find_union_case(union_name@, case_name@) is Some
                &&& match types {
                    Some(types) => {
                        &&& spec@.find_union_case(union_name@, case_name@)->0.types == Some(
                            type_views(types@),
                        )
                        &&& types@.len() == given
                    },
                    None => {
                        &&& spec@.find_union_case(union_name@, case_name@)->0.types is None
                        &&& given == 0
                    },
                }
            },
        },
{
    let case = match spec.union_case(union_name, case_name) {
        Some(case) => case,
        None => return Err(
            Failure::new(cat5("union `", union_name, "` has no case `", case_name, "`")),
        ),
    };
    let symbol = match symbol_from_str(case_name) {
        Ok(symbol) => symbol,
        Err(e) => return Err(e),
    };
    match &case.types {
        None => if given > 0 {
            Err(
                Failure::new(
                    cat5("case `", case_name, "` of union `", union_name, "` takes no arguments"),
                ),
            )
        } else {
            Ok((symbol, None))
        },
        Some(types) => if given != types.len() {
            Err(
                Failure::new(
                    cat2(
                        cat7(
                            "case `",
                            case_name,
                            "` of union `",
                            union_name,
                            "` expects ",
                            unsigned_text(types.len() as u128).as_str(),
                            " argument(s), got ",
                        ).as_str(),
                        unsigned_text(given as u128).as_str(),
                    ),
                ),
            )
        } else {
            Ok((symbol, Some(types)))
        },
    }
}

/// Puts a case's symbol before its arguments.
fn case_to_scval(symbol: Vec<u8>, args: Vec<Val>) -> (r: Result<Val, Failure>)
    ensures
        told(r) == list_val(
            Ok(seq![ValView::Symbol(symbol@)] + val_views(args@)),
            "union value too large"@,
        ),
{
    let ghost shown = val_views(args@);
    let mut items = args;
    items.insert(0, Val::Symbol(symbol));
    assert(val_views(items@) =~= seq![ValView::Symbol(symbol@)] + shown);
    list_to_scval(Ok(items), "union value too large")
}

/// Reads a union's case that is given no arguments.
fn bare_case_to_scval(union_name: &str, case_name: &str, spec: &ContractSpec) -> (r: Result<
    Val,
    Failure,
>)
    ensures
        told(r) == case_val(union_name@, case_name@, spec@, 0, Ok(Seq::empty())),
{
    match check_case(union_name, case_name, spec, 0, Ghost(Ok(Seq::empty()))) {
        Err(e) => Err(e),
        Ok((symbol, _)) => {
            let args: Vec<Val> = Vec::new();
            assert(val_views(args@) =~= Seq::empty());
            assert(seq![ValView::Symbol(symbol@)] + Seq::<ValView>::empty() =~= seq![
                ValView::Symbol(symbol@),
            ]);
            case_to_scval(symbol, args)
        },
    }
}

/// Reads a JSON value as a union: the name of a case, or an object with the name
/// as its only key and the arguments under it.
pub fn union_to_scval(union_name: &str, value: &Json, spec: &ContractSpec) -> (r: Result<Val, Failure>)
    ensures
        told(r) == union_val(union_name@, value@, spec@),
    decreases value@, 1int, TypeView::Void, 0int,
{
    match value {
        Json::String(case_name) => bare_case_to_scval(union_name, case_name.as_str(), spec),
        Json::Object(pairs) => if pairs.len() == 1 {
            let case_name = pairs[0].0.as_str();
            let ghost shown = pair_views(pairs@);
            let ghost types_shown = case_types(union_name@, case_name@, spec@);
            proof {
                assert(shown[0] == (pairs@[0].0@, pairs@[0].1@));
                lemma_object_part(value@, shown);
                lemma_pair_part(shown, 0);
            }
            match &pairs[0].1 {
                Json::Array(items) => {
                    let ghost items_shown = json_views(items@);
                    let ghost args = vals_upto(
                        items_shown,
                        ListTypesView::Listed(types_shown),
                        spec@,
                        items@.len() as int,
                    );
                    proof {
                        lemma_array_part(pairs@[0].1@, items_shown);
                    }
                    match check_case(union_name, case_name, spec, items.len(), Ghost(args)) {
                        Err(e) => Err(e),
                        Ok((symbol, Some(types))) => match list_to_scvals(
                            items,
                            ListTypes::Listed(types),
                            spec,
                        ) {
                            Err(e) => Err(e),
                            Ok(vals) => case_to_scval(symbol, vals),
                        },
                        Ok((symbol, None)) => {
                            assert(seq![ValView::Symbol(symbol@)] + Seq::<ValView>::empty()
                                =~= seq![ValView::Symbol(symbol@)]);
                            let none: Vec<Val> = Vec::new();
                            assert(val_views(none@) =~= Seq::empty());
                            case_to_scval(symbol, none)
                        },
                    }
                },
                Json::Null => bare_case_to_scval(union_name, case_name, spec),
                _ => {
                    let ghost arg = val_of(pairs@[0].1@, types_shown[0], spec@);
                    let ghost args = match arg {
                        Ok(v) => Ok::<Seq<ValView>, Seq<char>>(seq![v]),
                        Err(e) => Err(e),
                    };
                    match check_case(union_name, case_name, spec, 1, Ghost(args)) {
                        Err(e) => Err(e),
                        Ok((symbol, Some(types))) => match json_to_scval(
                            &pairs[0].1,
                            &types[0],
                            spec,
                        ) {
                            Err(e) => Err(e),
                            Ok(v) => {
                                let vals = vec![v];
                                assert(val_views(vals@) =~= seq![v@]);
                                case_to_scval(symbol, vals)
                            },
                        },
                        Ok((_, None)) => {
                            assert(false);
                            Ok(Val::Void)
                        },
                    }
                },
            }
        } else {
            Err(union_shape_failure(union_name))
        },
        _ => Err(union_shape_failure(union_name)),
    }
}

fn union_shape_failure(union_name: &str) -> (r: Failure)
    ensures
        r@
            == "expected a case name string, or a single-key object of {\"CaseName\": [args...]}, for union `"@
            + union_name@ + "`"@,
{
    Failure::new(
        cat3(
            "expected a case name string, or a single-key object of {\"CaseName\": [args...]}, for union `",
            union_name,
            "`",
        ),
    )
}

} // verus!
