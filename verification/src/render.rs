//! Contract values and ledger keys rendered as plain JSON.

use vstd::prelude::*;

use crate::encoding::account_text;
use crate::encoding::hex_encode;
use crate::encoding::hex_text;
use crate::encoding::lossy_text;
use crate::encoding::render_account;
use crate::encoding::render_bytes;
use crate::json::int_number;
use crate::json::json_views;
use crate::json::object;
use crate::json::object_view;
use crate::json::pair_views;
use crate::json::Json;
use crate::json::JsonNumber;
use crate::json::JsonView;
use crate::scval::address_of;
use crate::scval::address_text;
use crate::scval::address_to_string;
use crate::scval::i128_from_parts;
use crate::scval::i128_value;
use crate::scval::i256_value;
use crate::scval::u128_from_parts;
use crate::scval::u128_value;
use crate::scval::u256_value;
use crate::text::cat2;
use crate::text::decimal;
use crate::text::signed_text;
use crate::text::unsigned_text;
use crate::value::entry_views;
use crate::value::lemma_key_order;
use crate::value::same_key_type;
use crate::value::val_views;
use crate::value::Address;
use crate::value::AddressView;
use crate::value::Durability;
use crate::value::FootprintKey;
use crate::value::FootprintKeyView;
use crate::value::Val;
use crate::value::ValView;
use crate::xdr::debug_error;
use crate::xdr::debug_ledger_key;
use crate::xdr::error_debug;
use crate::xdr::i256_text;
use crate::xdr::ledger_key_debug;
use crate::xdr::u256_text;

verus! {

/// An object with one pair.
pub open spec fn object1(key: Seq<char>, value: JsonView) -> JsonView {
    object_view(seq![(key, value)])
}

/// An object with one pair.
pub fn single(key: &str, value: Json) -> (r: Json)
    ensures
        r@ == object1(key@, value@),
{
    let pairs = vec![(key.to_owned(), value)];
    assert(pair_views(pairs@) =~= seq![(key@, value@)]);
    object(pairs)
}

/// Whether every key is a symbol or a string.
pub open spec fn has_word_keys(entries: Seq<(ValView, ValView)>) -> bool {
    forall|i: int|
        0 <= i < entries.len() ==> (#[trigger] entries[i]).0 is Symbol || entries[i].0 is String
}

/// Whether all keys are of one type, among the types that a JSON object's keys can
/// be read as.
pub open spec fn has_like_keys(entries: Seq<(ValView, ValView)>) -> bool {
    forall|i: int, j: int|
        0 <= i < entries.len() && 0 <= j < entries.len() ==> same_key_type(
            (#[trigger] entries[i]).0,
            (#[trigger] entries[j]).0,
        )
}

/// Whether no key occurs twice.
pub open spec fn has_distinct_keys(entries: Seq<(ValView, ValView)>) -> bool {
    forall|i: int, j: int|
        0 <= i < j < entries.len() ==> (#[trigger] entries[i]).0 != (#[trigger] entries[j]).0
}

/// Whether the keys can be those of a JSON object: each is a symbol or a string, or
/// all are of one type that has texts and none occurs twice.
pub open spec fn has_text_keys(entries: Seq<(ValView, ValView)>) -> bool {
    has_word_keys(entries) || has_like_keys(entries) && has_distinct_keys(entries)
}

/// The text of a value as a key of a JSON object, if it has one.
pub open spec fn key_text(v: ValView) -> Seq<char> {
    match v {
        ValView::Symbol(b) => lossy_text(b),
        ValView::String(b) => lossy_text(b),
        ValView::Bool(b) => if b {
            "true"@
        } else {
            "false"@
        },
        ValView::U32(n) => decimal(n as int),
        ValView::I32(n) => decimal(n as int),
        ValView::U64(n) => decimal(n as int),
        ValView::I64(n) => decimal(n as int),
        ValView::Address(a) => address_text(a),
        _ => Seq::empty(),
    }
}

/// A value as plain JSON. Integers of 64 bits and more are decimal strings. A map
/// is an object where its keys are texts, or distinct and all of one type that has
/// texts, and otherwise an array of rows.
pub open spec fn json_of(v: ValView) -> JsonView
    decreases v,
{
    match v {
        ValView::Bool(b) => JsonView::Bool(b),
        ValView::Void => JsonView::Null,
        ValView::Error(e) => object1("error"@, JsonView::String(error_debug(e))),
        ValView::U32(n) => JsonView::Number(int_number(n as int)),
        ValView::I32(n) => JsonView::Number(int_number(n as int)),
        ValView::U64(n) => JsonView::String(decimal(n as int)),
        ValView::I64(n) => JsonView::String(decimal(n as int)),
        ValView::Timepoint(n) => JsonView::String(decimal(n as int)),
        ValView::Duration(n) => JsonView::String(decimal(n as int)),
        ValView::U128(p) => JsonView::String(decimal(u128_value(p))),
        ValView::I128(p) => JsonView::String(decimal(i128_value(p))),
        ValView::U256(p) => JsonView::String(decimal(u256_value(p))),
        ValView::I256(p) => JsonView::String(decimal(i256_value(p))),
        ValView::Bytes(b) => JsonView::String("0x"@ + hex_text(b)),
        ValView::String(b) => JsonView::String(lossy_text(b)),
        ValView::Symbol(b) => JsonView::String(lossy_text(b)),
        ValView::Vec(Some(items)) => JsonView::Array(jsons_of(items)),
        ValView::Vec(None) => JsonView::Array(Seq::empty()),
        ValView::Mapping(Some(entries)) => if has_text_keys(entries) {
            object_view(pairs_of(entries))
        } else {
            JsonView::Array(rows_of(entries))
        },
        ValView::Mapping(None) => JsonView::Object(Seq::empty()),
        ValView::Address(a) => JsonView::String(address_text(a)),
        ValView::ContractInstance(_) => object1(
            "note"@,
            JsonView::String("contract instance value"@),
        ),
        ValView::LedgerKeyContractInstance => JsonView::Null,
        ValView::LedgerKeyNonce(n) => object1("nonce"@, JsonView::String(decimal(n as int))),
    }
}

pub open spec fn jsons_of(items: Seq<ValView>) -> Seq<JsonView>
    decreases items,
{
    Seq::new(
        items.len(),
        |i: int|
            if 0 <= i < items.len() {
                json_of(items[i])
            } else {
                arbitrary()
            },
    )
}

pub open spec fn pairs_of(entries: Seq<(ValView, ValView)>) -> Seq<(Seq<char>, JsonView)>
    decreases entries,
{
    Seq::new(
        entries.len(),
        |i: int|
            if 0 <= i < entries.len() {
                (key_text(entries[i].0), json_of(entries[i].1))
            } else {
                arbitrary()
            },
    )
}

pub open spec fn rows_of(entries: Seq<(ValView, ValView)>) -> Seq<JsonView>
    decreases entries,
{
    Seq::new(
        entries.len(),
        |i: int|
            if 0 <= i < entries.len() {
                JsonView::Array(seq![json_of(entries[i].0), json_of(entries[i].1)])
            } else {
                arbitrary()
            },
    )
}

/// Whether the strkeys of the accounts and the contracts in a value read back as
/// these.
pub open spec fn strkeys_read_back(v: ValView) -> bool
    decreases v,
{
    match v {
        ValView::Address(a) => a is Account || a is Contract ==> address_of(address_text(a)) == Ok::<
            AddressView,
            Seq<char>,
        >(a),
        ValView::Vec(Some(items)) => forall|i: int|
            0 <= i < items.len() ==> strkeys_read_back(#[trigger] items[i]),
        ValView::Mapping(Some(entries)) => forall|i: int|
            0 <= i < entries.len() ==> strkeys_read_back((#[trigger] entries[i]).0)
                && strkeys_read_back(entries[i].1),
        _ => true,
    }
}

fn keys_are_words(entries: &Vec<(Val, Val)>) -> (r: bool)
    ensures
        r == has_word_keys(entry_views(entries@)),
{
    let mut i: usize = 0;
    while i < entries.len()
        invariant
            i <= entries@.len(),
            forall|k: int|
                0 <= k < i ==> (#[trigger] entry_views(entries@)[k]).0 is Symbol || entry_views(
                    entries@,
                )[k].0 is String,
        decreases entries@.len() - i,
    {
        assert(entry_views(entries@)[i as int].0 == entries@[i as int].0@);
        match &entries[i].0 {
            Val::Symbol(_) => {},
            Val::String(_) => {},
            _ => return false,
        }
        i += 1;
    }
    true
}

fn are_like_keys(a: &Val, b: &Val) -> (r: bool)
    ensures
        r == same_key_type(a@, b@),
{
    match (a, b) {
        (Val::Bool(_), Val::Bool(_)) => true,
        (Val::U32(_), Val::U32(_)) => true,
        (Val::I32(_), Val::I32(_)) => true,
        (Val::U64(_), Val::U64(_)) => true,
        (Val::I64(_), Val::I64(_)) => true,
        (Val::String(_), Val::String(_)) => true,
        (Val::Symbol(_), Val::Symbol(_)) => true,
        (Val::Address(x), Val::Address(y)) => has_strkey(x) && has_strkey(y),
        _ => false,
    }
}

fn has_strkey(a: &Address) -> (r: bool)
    ensures
        r == (a@ is Account || a@ is Contract),
{
    match a {
        Address::Account(_) | Address::Contract(_) => true,
        _ => false,
    }
}

fn keys_are_alike(entries: &Vec<(Val, Val)>) -> (r: bool)
    ensures
        r == has_like_keys(entry_views(entries@)),
{
    let ghost shown = entry_views(entries@);
    let mut i: usize = 0;
    while i < entries.len()
        invariant
            i <= entries@.len(),
            shown == entry_views(entries@),
            forall|k: int| 0 <= k < i ==> same_key_type(shown[0].0, (#[trigger] shown[k]).0),
        decreases entries@.len() - i,
    {
        assert(shown[0].0 == entries@[0].0@);
        assert(shown[i as int].0 == entries@[i as int].0@);
        if !are_like_keys(&entries[0].0, &entries[i].0) {
            assert(!same_key_type(shown[0].0, shown[i as int].0));
            return false;
        }
        i += 1;
    }
    assert forall|j: int, k: int| 0 <= j < shown.len() && 0 <= k < shown.len() implies same_key_type(
        (#[trigger] shown[j]).0,
        (#[trigger] shown[k]).0,
    ) by {
        assert(same_key_type(shown[0].0, shown[j].0));
        lemma_key_order(shown[j].0, shown[0].0, shown[k].0);
    }
    true
}

fn same_bytes(a: &[u8], b: &[u8]) -> (r: bool)
    ensures
        r == (a@ == b@),
{
    if a.len() != b.len() {
        return false;
    }
    let mut i: usize = 0;
    while i < a.len()
        invariant
            i <= a@.len(),
            a@.len() == b@.len(),
            forall|k: int| 0 <= k < i ==> a@[k] == b@[k],
        decreases a@.len() - i,
    {
        if a[i] != b[i] {
            return false;
        }
        i += 1;
    }
    assert(a@ =~= b@);
    true
}

fn same_key(a: &Val, b: &Val) -> (r: bool)
    requires
        same_key_type(a@, b@),
    ensures
        r == (a@ == b@),
{
    match (a, b) {
        (Val::Bool(x), Val::Bool(y)) => *x == *y,
        (Val::U32(x), Val::U32(y)) => *x == *y,
        (Val::I32(x), Val::I32(y)) => *x == *y,
        (Val::U64(x), Val::U64(y)) => *x == *y,
        (Val::I64(x), Val::I64(y)) => *x == *y,
        (Val::String(x), Val::String(y)) => same_bytes(x.as_slice(), y.as_slice()),
        (Val::Symbol(x), Val::Symbol(y)) => same_bytes(x.as_slice(), y.as_slice()),
        (Val::Address(x), Val::Address(y)) => match (x, y) {
            (Address::Account(k), Address::Account(l)) => same_bytes(k.as_slice(), l.as_slice()),
            (Address::Contract(k), Address::Contract(l)) => same_bytes(k.as_slice(), l.as_slice()),
            _ => false,
        },
        _ => false,
    }
}

fn keys_are_distinct(entries: &Vec<(Val, Val)>) -> (r: bool)
    requires
        has_like_keys(entry_views(entries@)),
    ensures
        r == has_distinct_keys(entry_views(entries@)),
{
    let ghost shown = entry_views(entries@);
    let mut j: usize = 0;
    while j < entries.len()
        invariant
            j <= entries@.len(),
            shown == entry_views(entries@),
            has_like_keys(shown),
            forall|a: int, b: int|
                0 <= a < b < j ==> (#[trigger] shown[a]).0 != (#[trigger] shown[b]).0,
        decreases entries@.len() - j,
    {
        let mut i: usize = 0;
        while i < j
            invariant
                i <= j < entries@.len(),
                shown == entry_views(entries@),
                has_like_keys(shown),
                forall|a: int| 0 <= a < i ==> (#[trigger] shown[a]).0 != shown[j as int].0,
            decreases j - i,
        {
            assert(shown[i as int].0 == entries@[i as int].0@);
            assert(shown[j as int].0 == entries@[j as int].0@);
            assert(same_key_type(shown[i as int].0, shown[j as int].0));
            if same_key(&entries[i].0, &entries[j].0) {
                assert(shown[i as int].0 == shown[j as int].0);
                return false;
            }
            i += 1;
        }
        j += 1;
    }
    true
}

fn keys_are_texts(entries: &Vec<(Val, Val)>) -> (r: bool)
    ensures
        r == has_text_keys(entry_views(entries@)),
{
    keys_are_words(entries) || keys_are_alike(entries) && keys_are_distinct(entries)
}

fn render_key(v: &Val) -> (r: String)
    ensures
        r@ == key_text(v@),
        same_key_type(v@, v@) ==> strkeys_read_back(v@),
{
    match v {
        Val::Symbol(b) => render_bytes(b),
        Val::String(b) => render_bytes(b),
        Val::Bool(b) => if *b {
            "true".to_owned()
        } else {
            "false".to_owned()
        },
        Val::U32(n) => unsigned_text(*n as u128),
        Val::I32(n) => signed_text(*n as i128),
        Val::U64(n) => unsigned_text(*n as u128),
        Val::I64(n) => signed_text(*n as i128),
        Val::Address(a) => address_to_string(a),
        _ => {
            proof {
                reveal_strlit("");
            }
            let none = "".to_owned();
            assert(none@ =~= Seq::empty());
            none
        },
    }
}

/// The parts of an entry of a map are smaller than the map.
pub proof fn lemma_entry_part(v: ValView, entries: Seq<(ValView, ValView)>, i: int)
    requires
        v == ValView::Mapping(Some(entries)),
        0 <= i < entries.len(),
    ensures
        decreases_to!(v => entries[i].0),
        decreases_to!(v => entries[i].1),
{
    assert(decreases_to!(v => v->Mapping_0));
    assert(decreases_to!(v->Mapping_0 => v->Mapping_0->0));
    assert(decreases_to!(entries => entries[i]));
    assert(decreases_to!(entries[i] => entries[i].0));
    assert(decreases_to!(entries[i] => entries[i].1));
}

/// The elements of a list are smaller than the list.
pub proof fn lemma_item_part(v: ValView, items: Seq<ValView>, i: int)
    requires
        v == ValView::Vec(Some(items)),
        0 <= i < items.len(),
    ensures
        decreases_to!(v => items[i]),
{
    assert(decreases_to!(v => v->Vec_0));
    assert(decreases_to!(v->Vec_0 => v->Vec_0->0));
    assert(decreases_to!(items => items[i]));
}

/// Renders a value as plain JSON, whatever its type. The strkeys in it read back.
pub fn scval_to_json(v: &Val) -> (r: Json)
    ensures
        r@ == json_of(v@),
        strkeys_read_back(v@),
    decreases v@,
{
    match v {
        Val::Bool(b) => Json::Bool(*b),
        Val::Void => Json::Null,
        Val::Error(e) => single("error", Json::String(debug_error(e))),
        Val::U32(n) => Json::Number(JsonNumber::Unsigned(*n as u64)),
        Val::I32(n) => if *n < 0 {
            Json::Number(JsonNumber::Negative(*n as i64))
        } else {
            Json::Number(JsonNumber::Unsigned(*n as u64))
        },
        Val::U64(n) => Json::String(unsigned_text(*n as u128)),
        Val::I64(n) => Json::String(signed_text(*n as i128)),
        Val::Timepoint(n) => Json::String(unsigned_text(*n as u128)),
        Val::Duration(n) => Json::String(unsigned_text(*n as u128)),
        Val::U128(p) => Json::String(unsigned_text(u128_from_parts(p))),
        Val::I128(p) => Json::String(signed_text(i128_from_parts(p))),
        Val::U256(p) => Json::String(u256_text(p)),
        Val::I256(p) => Json::String(i256_text(p)),
        Val::Bytes(b) => Json::String(cat2("0x", hex_encode(b.as_slice()).as_str())),
        Val::String(b) => Json::String(render_bytes(b)),
        Val::Symbol(b) => Json::String(render_bytes(b)),
        Val::Vec(Some(items)) => {
            let ghost shown = val_views(items@);
            let mut out: Vec<Json> = Vec::new();
            let mut i: usize = 0;
            while i < items.len()
                invariant
                    i <= items@.len(),
                    shown == val_views(items@),
                    v@ == ValView::Vec(Some(shown)),
                    out@.len() == i,
                    forall|k: int| 0 <= k < i ==> (#[trigger] out@[k])@ == jsons_of(shown)[k],
                    forall|k: int| 0 <= k < i ==> strkeys_read_back(#[trigger] shown[k]),
                decreases items@.len() - i,
            {
                proof {
                    assert(shown[i as int] == items@[i as int]@);
                    lemma_item_part(v@, shown, i as int);
                }
                out.push(scval_to_json(&items[i]));
                i += 1;
            }
            assert(json_views(out@) =~= jsons_of(shown));
            Json::Array(out)
        },
        Val::Vec(None) => {
            let none: Vec<Json> = Vec::new();
            assert(json_views(none@) =~= Seq::empty());
            Json::Array(none)
        },
        Val::Mapping(Some(entries)) => {
            let ghost shown = entry_views(entries@);
            if keys_are_texts(entries) {
                let mut out: Vec<(String, Json)> = Vec::new();
                let mut i: usize = 0;
                while i < entries.len()
                    invariant
                        i <= entries@.len(),
                        shown == entry_views(entries@),
                        v@ == ValView::Mapping(Some(shown)),
                        out@.len() == i,
                        forall|k: int|
                            0 <= k < i ==> (#[trigger] out@[k]).0@ == pairs_of(shown)[k].0
                                && out@[k].1@ == pairs_of(shown)[k].1,
                        has_text_keys(shown),
                        forall|k: int|
                            0 <= k < i ==> strkeys_read_back((#[trigger] shown[k]).0)
                                && strkeys_read_back(shown[k].1),
                    decreases entries@.len() - i,
                {
                    proof {
                        assert(shown[i as int] == (entries@[i as int].0@, entries@[i as int].1@));
                        lemma_entry_part(v@, shown, i as int);
                        assert(same_key_type(shown[i as int].0, shown[i as int].0));
                    }
                    out.push((render_key(&entries[i].0), scval_to_json(&entries[i].1)));
                    i += 1;
                }
                assert(pair_views(out@) =~= pairs_of(shown));
                object(out)
            } else {
                let mut out: Vec<Json> = Vec::new();
                let mut i: usize = 0;
                while i < entries.len()
                    invariant
                        i <= entries@.len(),
                        shown == entry_views(entries@),
                        v@ == ValView::Mapping(Some(shown)),
                        out@.len() == i,
                        forall|k: int| 0 <= k < i ==> (#[trigger] out@[k])@ == rows_of(shown)[k],
                        forall|k: int|
                            0 <= k < i ==> strkeys_read_back((#[trigger] shown[k]).0)
                                && strkeys_read_back(shown[k].1),
                    decreases entries@.len() - i,
                {
                    proof {
                        assert(shown[i as int] == (entries@[i as int].0@, entries@[i as int].1@));
                        lemma_entry_part(v@, shown, i as int);
                    }
                    let row = vec![scval_to_json(&entries[i].0), scval_to_json(&entries[i].1)];
                    assert(json_views(row@) =~= seq![
                        json_of(shown[i as int].0),
                        json_of(shown[i as int].1),
                    ]);
                    out.push(Json::Array(row));
                    i += 1;
                }
                assert(json_views(out@) =~= rows_of(shown));
                Json::Array(out)
            }
        },
        Val::Mapping(None) => {
            let none: Vec<(String, Json)> = Vec::new();
            assert(pair_views(none@) =~= Seq::empty());
            Json::Object(none)
        },
        Val::Address(a) => Json::String(address_to_string(a)),
        Val::ContractInstance(_) => single("note", Json::text("contract instance value")),
        Val::LedgerKeyContractInstance => Json::Null,
        Val::LedgerKeyNonce(n) => single("nonce", Json::String(signed_text(*n as i128))),
    }
}

/// The name of a durability.
pub open spec fn durability_text(d: Durability) -> Seq<char> {
    match d {
        Durability::Temporary => "Temporary"@,
        Durability::Persistent => "Persistent"@,
    }
}

/// A ledger key as plain JSON.
pub open spec fn key_json(k: FootprintKeyView) -> JsonView {
    match k {
        FootprintKeyView::Account(key) => object_view(
            seq![
                ("type"@, JsonView::String("account"@)),
                ("account_id"@, JsonView::String(account_text(key))),
            ],
        ),
        FootprintKeyView::ContractData(contract, key, durability) => object_view(
            seq![
                ("type"@, JsonView::String("contract_data"@)),
                ("contract"@, JsonView::String(address_text(contract))),
                (
                    "key"@,
                    if key is LedgerKeyContractInstance {
                        JsonView::String("instance"@)
                    } else {
                        json_of(key)
                    },
                ),
                ("durability"@, JsonView::String(durability_text(durability))),
            ],
        ),
        FootprintKeyView::ContractCode(hash) => object_view(
            seq![
                ("type"@, JsonView::String("contract_code"@)),
                ("hash"@, JsonView::String(hex_text(hash))),
            ],
        ),
        FootprintKeyView::Other(key) => object_view(
            seq![
                ("type"@, JsonView::String("other"@)),
                ("debug"@, JsonView::String(ledger_key_debug(key))),
            ],
        ),
    }
}

/// Renders a ledger key, such as one that a call writes.
pub fn ledger_key_to_json(key: &FootprintKey) -> (r: Json)
    ensures
        r@ == key_json(key@),
{
    let pairs = match key {
        FootprintKey::Account(id) => vec![
            ("type".to_owned(), Json::text("account")),
            ("account_id".to_owned(), Json::String(render_account(id))),
        ],
        FootprintKey::ContractData(contract, data_key, durability) => {
            let shown = match data_key {
                Val::LedgerKeyContractInstance => Json::text("instance"),
                _ => scval_to_json(data_key),
            };
            let lasting = match durability {
                Durability::Temporary => "Temporary",
                Durability::Persistent => "Persistent",
            };
            vec![
                ("type".to_owned(), Json::text("contract_data")),
                ("contract".to_owned(), Json::String(address_to_string(contract))),
                ("key".to_owned(), shown),
                ("durability".to_owned(), Json::text(lasting)),
            ]
        },
        FootprintKey::ContractCode(hash) => vec![
            ("type".to_owned(), Json::text("contract_code")),
            ("hash".to_owned(), Json::String(hex_encode(hash.as_slice()))),
        ],
        FootprintKey::Other(other) => vec![
            ("type".to_owned(), Json::text("other")),
            ("debug".to_owned(), Json::String(debug_ledger_key(other))),
        ],
    };
    proof {
        match key@ {
            FootprintKeyView::Account(id) => assert(pair_views(pairs@) =~= seq![
                ("type"@, JsonView::String("account"@)),
                ("account_id"@, JsonView::String(account_text(id))),
            ]),
            FootprintKeyView::ContractData(contract, data_key, durability) => assert(pair_views(
                pairs@,
            ) =~= seq![
                ("type"@, JsonView::String("contract_data"@)),
                ("contract"@, JsonView::String(address_text(contract))),
                (
                    "key"@,
                    if data_key is LedgerKeyContractInstance {
                        JsonView::String("instance"@)
                    } else {
                        json_of(data_key)
                    },
                ),
                ("durability"@, JsonView::String(durability_text(durability))),
            ]),
            FootprintKeyView::ContractCode(hash) => assert(pair_views(pairs@) =~= seq![
                ("type"@, JsonView::String("contract_code"@)),
                ("hash"@, JsonView::String(hex_text(hash))),
            ]),
            FootprintKeyView::Other(other) => assert(pair_views(pairs@) =~= seq![
                ("type"@, JsonView::String("other"@)),
                ("debug"@, JsonView::String(ledger_key_debug(other))),
            ]),
        }
    }
    object(pairs)
}

} // verus!
