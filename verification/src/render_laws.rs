//! What each value and each ledger key is shown as.

use vstd::prelude::*;
use vstd::utf8::encode_utf8;
use vstd::utf8::valid_utf8;

use crate::encoding::account_text;
use crate::encoding::contract_text;
use crate::encoding::hex_text;
use crate::encoding::lossy_text;
use crate::json::object_view;
use crate::json::JsonNumber;
use crate::json::JsonView;
use crate::json_laws::lemma_no_other_key;
use crate::json_laws::lemma_pair_found;
use crate::listing_laws::says;
use crate::render::json_of;
use crate::render::key_json;
use crate::render::key_text;
use crate::render::pairs_of;
use crate::text::decimal;
use crate::text::decimal_nat;
use crate::value::same_key_type;
use crate::value::AddressView;
use crate::value::Durability;
use crate::value::FootprintKeyView;
use crate::value::ValView;
use crate::xdr::address_debug;
use crate::xdr::error_debug;
use crate::xdr::ledger_key_debug;

verus! {

/// Booleans and integers of 32 bits are shown as themselves, no value as null, bytes in
/// hexadecimal behind `0x`, texts as texts, and addresses as their strkeys.
pub proof fn law_plain_values_are_shown(b: bool, n: u32, i: i32, bytes: Seq<u8>)
    ensures
        json_of(ValView::Bool(b)) == JsonView::Bool(b),
        json_of(ValView::Void) == JsonView::Null,
        json_of(ValView::U32(n)) == JsonView::Number(JsonNumber::Unsigned(n as u64)),
        i >= 0 ==> json_of(ValView::I32(i)) == JsonView::Number(JsonNumber::Unsigned(i as u64)),
        i < 0 ==> json_of(ValView::I32(i)) == JsonView::Number(JsonNumber::Negative(i as i64)),
        json_of(ValView::Bytes(bytes)) == JsonView::String("0x"@ + hex_text(bytes)),
        json_of(ValView::String(bytes)) == JsonView::String(lossy_text(bytes)),
        json_of(ValView::Symbol(bytes)) == JsonView::String(lossy_text(bytes)),
        json_of(ValView::Address(AddressView::Account(bytes))) == JsonView::String(
            account_text(bytes),
        ),
        json_of(ValView::Address(AddressView::Contract(bytes))) == JsonView::String(
            contract_text(bytes),
        ),
        valid_utf8(bytes) ==> encode_utf8(lossy_text(bytes)) == bytes,
{
    if valid_utf8(bytes) {
        vstd::utf8::decode_utf8_encode_utf8(bytes);
    }
}

/// Values that stand for no plain JSON are shown by a note or by their debug notation,
/// and the nonce of a key in decimals.
pub proof fn law_other_values_are_noted(
    e: stellar_xdr::ScError,
    c: stellar_xdr::ScContractInstance,
    a: AddressView,
    n: i64,
)
    requires
        !(a is Account) && !(a is Contract),
    ensures
        says(json_of(ValView::Error(e)), "error"@, error_debug(e)),
        says(json_of(ValView::ContractInstance(c)), "note"@, "contract instance value"@),
        json_of(ValView::LedgerKeyContractInstance) == JsonView::Null,
        says(json_of(ValView::LedgerKeyNonce(n)), "nonce"@, decimal(n as int)),
        json_of(ValView::Address(a)) == JsonView::String(address_debug(a)),
        json_of(ValView::Vec(None)) == JsonView::Array(Seq::empty()),
        json_of(ValView::Mapping(None)) == JsonView::Object(Seq::empty()),
        json_of(ValView::Mapping(Some(Seq::empty()))) == JsonView::Object(Seq::empty()),
{
    lemma_pair_found(seq![("error"@, JsonView::String(error_debug(e)))], 0);
    lemma_pair_found(seq![("note"@, JsonView::String("contract instance value"@))], 0);
    lemma_pair_found(seq![("nonce"@, JsonView::String(decimal(n as int)))], 0);
}

/// A list is shown as the array of what its elements are shown as, in their order.
pub proof fn law_list_is_shown(items: Seq<ValView>)
    ensures
        json_of(ValView::Vec(Some(items))) matches JsonView::Array(shown) && shown.len()
            == items.len() && forall|i: int|
            0 <= i < items.len() ==> #[trigger] shown[i] == json_of(items[i]),
{
}

/// Whether the keys of entries can be those of an object: all are symbols or strings,
/// or all are of one type that has texts and no two are the same.
pub open spec fn keys_are_names(entries: Seq<(ValView, ValView)>) -> bool {
    ||| forall|i: int|
        0 <= i < entries.len() ==> (#[trigger] entries[i]).0 is Symbol || entries[i].0 is String
    ||| (forall|i: int, j: int|
        0 <= i < entries.len() && 0 <= j < entries.len() ==> same_key_type(
            (#[trigger] entries[i]).0,
            (#[trigger] entries[j]).0,
        )) && (forall|i: int, j: int|
        0 <= i < j < entries.len() ==> (#[trigger] entries[i]).0 != (#[trigger] entries[j]).0)
}

/// A map whose keys are names is shown as an object, in which what each entry is shown
/// as stands under the text of its key, unless a later entry has a key with that text;
/// under other texts there is nothing.
pub proof fn law_map_with_names_is_shown(
    entries: Seq<(ValView, ValView)>,
    i: int,
    other: Seq<char>,
)
    requires
        keys_are_names(entries),
        0 <= i < entries.len(),
        forall|j: int|
            i < j < entries.len() ==> key_text((#[trigger] entries[j]).0) != key_text(
                entries[i].0,
            ),
        forall|j: int| 0 <= j < entries.len() ==> key_text((#[trigger] entries[j]).0) != other,
    ensures
        json_of(ValView::Mapping(Some(entries))) is Object,
        json_of(ValView::Mapping(Some(entries))).at_key(key_text(entries[i].0)) == Some(
            json_of(entries[i].1),
        ),
        json_of(ValView::Mapping(Some(entries))).at_key(other) is None,
{
    let given = pairs_of(entries);
    assert(crate::render::has_text_keys(entries));
    assert forall|j: int| 0 <= j < given.len() implies #[trigger] given[j] == (
        key_text(entries[j].0),
        json_of(entries[j].1),
    ) by {}
    assert forall|j: int| i < j < given.len() implies (#[trigger] given[j]).0 != given[i].0 by {
        assert(key_text(entries[j].0) != key_text(entries[i].0));
    }
    assert forall|j: int| 0 <= j < given.len() implies (#[trigger] given[j]).0 != other by {
        assert(key_text(entries[j].0) != other);
    }
    lemma_pair_found(given, i);
    lemma_no_other_key(given, other);
}

/// A map whose keys are no names is shown as an array of rows, one for each entry, in
/// their order, with what the key and what the value are shown as.
pub proof fn law_other_map_is_shown(entries: Seq<(ValView, ValView)>)
    requires
        !keys_are_names(entries),
    ensures
        json_of(ValView::Mapping(Some(entries))) matches JsonView::Array(rows) && rows.len()
            == entries.len() && forall|i: int|
            0 <= i < entries.len() ==> #[trigger] rows[i] == JsonView::Array(
                seq![json_of(entries[i].0), json_of(entries[i].1)],
            ),
{
    assert(!crate::render::has_text_keys(entries));
}

/// The text of a key: a symbol's or a string's text, a boolean's word, the decimals of
/// an integer, and the strkey of an address.
pub proof fn law_key_texts(bytes: Seq<u8>, a: u32, b: i32, c: u64, d: i64)
    ensures
        key_text(ValView::Symbol(bytes)) == lossy_text(bytes),
        key_text(ValView::String(bytes)) == lossy_text(bytes),
        key_text(ValView::Bool(true)) == "true"@,
        key_text(ValView::Bool(false)) == "false"@,
        key_text(ValView::U32(a)) == decimal(a as int),
        key_text(ValView::I32(b)) == decimal(b as int),
        key_text(ValView::U64(c)) == decimal(c as int),
        key_text(ValView::I64(d)) == decimal(d as int),
        key_text(ValView::Address(AddressView::Account(bytes))) == account_text(bytes),
        key_text(ValView::Address(AddressView::Contract(bytes))) == contract_text(bytes),
{
}

/// The text of an address on its own: its strkey, or its debug notation.
pub open spec fn shown_address(a: AddressView) -> Seq<char> {
    match a {
        AddressView::Account(key) => account_text(key),
        AddressView::Contract(id) => contract_text(id),
        _ => address_debug(a),
    }
}

/// A ledger key is shown with the word for its type and its parts: the account; the
/// contract, the key and the durability of a contract's data; the hash of code; or the
/// debug notation of any other.
pub proof fn law_ledger_key_is_shown(k: FootprintKeyView)
    ensures
        ({
            let j = key_json(k);
            match k {
                FootprintKeyView::Account(key) => says(j, "type"@, "account"@) && says(
                    j,
                    "account_id"@,
                    account_text(key),
                ),
                FootprintKeyView::ContractData(contract, key, durability) => {
                    &&& says(j, "type"@, "contract_data"@)
                    &&& says(j, "contract"@, shown_address(contract))
                    &&& match key {
                        ValView::LedgerKeyContractInstance => says(j, "key"@, "instance"@),
                        _ => j.at_key("key"@) == Some(json_of(key)),
                    }
                    &&& match durability {
                        Durability::Temporary => says(j, "durability"@, "Temporary"@),
                        Durability::Persistent => says(j, "durability"@, "Persistent"@),
                    }
                },
                FootprintKeyView::ContractCode(hash) => says(j, "type"@, "contract_code"@) && says(
                    j,
                    "hash"@,
                    hex_text(hash),
                ),
                FootprintKeyView::Other(key) => says(j, "type"@, "other"@) && says(
                    j,
                    "debug"@,
                    ledger_key_debug(key),
                ),
            }
        }),
{
    reveal_strlit("type");
    reveal_strlit("account_id");
    reveal_strlit("contract");
    reveal_strlit("key");
    reveal_strlit("durability");
    reveal_strlit("hash");
    reveal_strlit("debug");
    assert("type"@.len() == 4 && "account_id"@.len() == 10 && "contract"@.len() == 8);
    assert("key"@.len() == 3 && "durability"@.len() == 10 && "hash"@.len() == 4);
    assert("debug"@.len() == 5 && "type"@[0] == 't' && "hash"@[0] == 'h');
    match k {
        FootprintKeyView::Account(key) => {
            let given = seq![
                ("type"@, JsonView::String("account"@)),
                ("account_id"@, JsonView::String(account_text(key))),
            ];
            lemma_pair_found(given, 0);
            lemma_pair_found(given, 1);
        },
        FootprintKeyView::ContractData(contract, key, durability) => {
            let shown = if key is LedgerKeyContractInstance {
                JsonView::String("instance"@)
            } else {
                json_of(key)
            };
            let given = seq![
                ("type"@, JsonView::String("contract_data"@)),
                ("contract"@, JsonView::String(shown_address(contract))),
                ("key"@, shown),
                (
                    "durability"@,
                    JsonView::String(crate::render::durability_text(durability)),
                ),
            ];
            assert(key_json(k) == object_view(given));
            lemma_pair_found(given, 0);
            lemma_pair_found(given, 1);
            lemma_pair_found(given, 2);
            lemma_pair_found(given, 3);
        },
        FootprintKeyView::ContractCode(hash) => {
            let given = seq![
                ("type"@, JsonView::String("contract_code"@)),
                ("hash"@, JsonView::String(hex_text(hash))),
            ];
            lemma_pair_found(given, 0);
            lemma_pair_found(given, 1);
        },
        FootprintKeyView::Other(key) => {
            let given = seq![
                ("type"@, JsonView::String("other"@)),
                ("debug"@, JsonView::String(ledger_key_debug(key))),
            ];
            lemma_pair_found(given, 0);
            lemma_pair_found(given, 1);
        },
    }
}

/// The hexadecimal notation of bytes has two digits for each byte, the higher first, in
/// lower case.
pub proof fn law_hex_digits(bytes: Seq<u8>, i: int)
    requires
        0 <= i < bytes.len(),
    ensures
        hex_text(bytes).len() == 2 * bytes.len(),
        ({
            let high = hex_text(bytes)[2 * i];
            let low = hex_text(bytes)[2 * i + 1];
            &&& '0' <= high <= '9' || 'a' <= high <= 'f'
            &&& '0' <= low <= '9' || 'a' <= low <= 'f'
            &&& bytes[i] == 16 * (high as int - if high <= '9' {
                48int
            } else {
                87
            }) + (low as int - if low <= '9' {
                48int
            } else {
                87
            })
        }),
{
    assert((2 * i) / 2 == i && (2 * i) % 2 == 0);
    assert((2 * i + 1) / 2 == i && (2 * i + 1) % 2 == 1);
}

proof fn lemma_decimal_nat(n: nat)
    ensures
        decimal_nat(n).len() > 0,
        forall|i: int|
            0 <= i < decimal_nat(n).len() ==> '0' <= #[trigger] decimal_nat(n)[i] <= '9',
        decimal_nat(n)[0] == '0' ==> decimal_nat(n).len() == 1,
        n > 0 ==> decimal_nat(n)[0] != '0',
    decreases n,
{
    if n >= 10 {
        lemma_decimal_nat(n / 10);
        let head = decimal_nat(n / 10);
        let all = decimal_nat(n);
        assert(all[0] == head[0]);
        assert forall|i: int| 0 <= i < all.len() implies '0' <= #[trigger] all[i] <= '9' by {
            if i < head.len() {
                assert(all[i] == head[i]);
            }
        }
    }
}

/// The decimals of an integer are digits without leading zeros, behind a minus sign
/// where it is below zero.
pub proof fn law_decimals(n: int)
    ensures
        ({
            let s = decimal(n);
            let from: int = if n < 0 {
                1
            } else {
                0
            };
            &&& s.len() > from
            &&& n < 0 ==> s[0] == '-'
            &&& forall|i: int| from <= i < s.len() ==> '0' <= #[trigger] s[i] <= '9'
            &&& s[from] == '0' ==> n == 0 && s.len() == 1
        }),
{
    let m = (if n < 0 {
        -n
    } else {
        n
    }) as nat;
    lemma_decimal_nat(m);
    if n < 0 {
        let s = decimal(n);
        assert forall|i: int| 1 <= i < s.len() implies '0' <= #[trigger] s[i] <= '9' by {
            assert(s[i] == decimal_nat(m)[i - 1]);
        }
        assert(s[1] == decimal_nat(m)[0]);
    }
}

} // verus!
