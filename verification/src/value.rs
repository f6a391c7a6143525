//! Contract values and addresses, with the ledger keys that a call touches.

use vstd::prelude::*;

use crate::order::bytes_lt;
use crate::order::lemma_bytes_order;

verus! {

#[verifier::external_type_specification]
#[verifier::external_body]
pub struct ExScError(stellar_xdr::ScError);

#[verifier::external_type_specification]
#[verifier::external_body]
pub struct ExScContractInstance(stellar_xdr::ScContractInstance);

#[verifier::external_type_specification]
#[verifier::external_body]
pub struct ExMuxedEd25519Account(stellar_xdr::MuxedEd25519Account);

#[verifier::external_type_specification]
#[verifier::external_body]
pub struct ExClaimableBalanceId(stellar_xdr::ClaimableBalanceId);

#[verifier::external_type_specification]
#[verifier::external_body]
pub struct ExPoolId(stellar_xdr::PoolId);

#[verifier::external_type_specification]
#[verifier::external_body]
pub struct ExLedgerKey(stellar_xdr::LedgerKey);

/// An address: an account or a contract, or one of the kinds that have no
/// strkey notation here.
#[derive(Debug, PartialEq)]
pub enum Address {
    Account([u8; 32]),
    Contract([u8; 32]),
    MuxedAccount(stellar_xdr::MuxedEd25519Account),
    ClaimableBalance(stellar_xdr::ClaimableBalanceId),
    LiquidityPool(stellar_xdr::PoolId),
}

pub enum AddressView {
    Account(Seq<u8>),
    Contract(Seq<u8>),
    MuxedAccount(stellar_xdr::MuxedEd25519Account),
    ClaimableBalance(stellar_xdr::ClaimableBalanceId),
    LiquidityPool(stellar_xdr::PoolId),
}

impl View for Address {
    type V = AddressView;

    open spec fn view(&self) -> AddressView {
        match *self {
            Address::Account(key) => AddressView::Account(key@),
            Address::Contract(id) => AddressView::Contract(id@),
            Address::MuxedAccount(m) => AddressView::MuxedAccount(m),
            Address::ClaimableBalance(b) => AddressView::ClaimableBalance(b),
            Address::LiquidityPool(p) => AddressView::LiquidityPool(p),
        }
    }
}

/// The two halves of an unsigned 128-bit integer.
#[derive(Debug, Clone, Copy, PartialEq, Eq, Structural)]
pub struct UInt128Parts {
    pub hi: u64,
    pub lo: u64,
}

/// The two halves of a signed 128-bit integer.
#[derive(Debug, Clone, Copy, PartialEq, Eq, Structural)]
pub struct Int128Parts {
    pub hi: i64,
    pub lo: u64,
}

/// The four quarters of an unsigned 256-bit integer.
#[derive(Debug, Clone, Copy, PartialEq, Eq, Structural)]
pub struct UInt256Parts {
    pub hi_hi: u64,
    pub hi_lo: u64,
    pub lo_hi: u64,
    pub lo_lo: u64,
}

/// The four quarters of a signed 256-bit integer.
#[derive(Debug, Clone, Copy, PartialEq, Eq, Structural)]
pub struct Int256Parts {
    pub hi_hi: i64,
    pub hi_lo: u64,
    pub lo_hi: u64,
    pub lo_lo: u64,
}

/// A contract value.
#[derive(Debug, PartialEq)]
pub enum Val {
    Bool(bool),
    Void,
    Error(stellar_xdr::ScError),
    U32(u32),
    I32(i32),
    U64(u64),
    I64(i64),
    Timepoint(u64),
    Duration(u64),
    U128(UInt128Parts),
    I128(Int128Parts),
    U256(UInt256Parts),
    I256(Int256Parts),
    Bytes(Vec<u8>),
    String(Vec<u8>),
    Symbol(Vec<u8>),
    Vec(Option<Vec<Val>>),
    Mapping(Option<Vec<(Val, Val)>>),
    Address(Address),
    ContractInstance(stellar_xdr::ScContractInstance),
    LedgerKeyContractInstance,
    LedgerKeyNonce(i64),
}

/// What a [`Val`] stands for.
pub enum ValView {
    Bool(bool),
    Void,
    Error(stellar_xdr::ScError),
    U32(u32),
    I32(i32),
    U64(u64),
    I64(i64),
    Timepoint(u64),
    Duration(u64),
    U128(UInt128Parts),
    I128(Int128Parts),
    U256(UInt256Parts),
    I256(Int256Parts),
    Bytes(Seq<u8>),
    String(Seq<u8>),
    Symbol(Seq<u8>),
    Vec(Option<Seq<ValView>>),
    Mapping(Option<Seq<(ValView, ValView)>>),
    Address(AddressView),
    ContractInstance(stellar_xdr::ScContractInstance),
    LedgerKeyContractInstance,
    LedgerKeyNonce(i64),
}

pub open spec fn val_view(v: Val) -> ValView
    decreases v,
{
    match v {
        Val::Bool(b) => ValView::Bool(b),
        Val::Void => ValView::Void,
        Val::Error(e) => ValView::Error(e),
        Val::U32(n) => ValView::U32(n),
        Val::I32(n) => ValView::I32(n),
        Val::U64(n) => ValView::U64(n),
        Val::I64(n) => ValView::I64(n),
        Val::Timepoint(n) => ValView::Timepoint(n),
        Val::Duration(n) => ValView::Duration(n),
        Val::U128(p) => ValView::U128(p),
        Val::I128(p) => ValView::I128(p),
        Val::U256(p) => ValView::U256(p),
        Val::I256(p) => ValView::I256(p),
        Val::Bytes(b) => ValView::Bytes(b@),
        Val::String(b) => ValView::String(b@),
        Val::Symbol(b) => ValView::Symbol(b@),
        Val::Vec(None) => ValView::Vec(None),
        Val::Vec(Some(items)) => ValView::Vec(Some(val_views(items@))),
        Val::Mapping(None) => ValView::Mapping(None),
        Val::Mapping(Some(entries)) => ValView::Mapping(Some(entry_views(entries@))),
        Val::Address(a) => ValView::Address(a@),
        Val::ContractInstance(c) => ValView::ContractInstance(c),
        Val::LedgerKeyContractInstance => ValView::LedgerKeyContractInstance,
        Val::LedgerKeyNonce(n) => ValView::LedgerKeyNonce(n),
    }
}

pub open spec fn val_views(items: Seq<Val>) -> Seq<ValView>
    decreases items,
{
    Seq::new(
        items.len(),
        |i: int|
            if 0 <= i < items.len() {
                val_view(items[i])
            } else {
                arbitrary()
            },
    )
}

pub open spec fn entry_views(entries: Seq<(Val, Val)>) -> Seq<(ValView, ValView)>
    decreases entries,
{
    Seq::new(
        entries.len(),
        |i: int|
            if 0 <= i < entries.len() {
                (val_view(entries[i].0), val_view(entries[i].1))
            } else {
                arbitrary()
            },
    )
}

impl View for Val {
    type V = ValView;

    open spec fn view(&self) -> ValView {
        val_view(*self)
    }
}

/// Whether a value keeps to the limits of the wire format: a symbol has at most
/// 32 bytes, and no sequence more than `u32::MAX` elements.
pub open spec fn fits(v: ValView) -> bool
    decreases v,
{
    match v {
        ValView::Bytes(b) => b.len() <= u32::MAX,
        ValView::String(b) => b.len() <= u32::MAX,
        ValView::Symbol(b) => b.len() <= 32,
        ValView::Vec(Some(items)) => {
            &&& items.len() <= u32::MAX
            &&& forall|i: int| 0 <= i < items.len() ==> fits(#[trigger] items[i])
        },
        ValView::Mapping(Some(entries)) => {
            &&& entries.len() <= u32::MAX
            &&& forall|i: int|
                0 <= i < entries.len() ==> fits((#[trigger] entries[i]).0) && fits(entries[i].1)
        },
        _ => true,
    }
}

/// Whether two values are keys of the same type, among the types that a JSON
/// object's keys can be read as.
pub open spec fn same_key_type(a: ValView, b: ValView) -> bool {
    match (a, b) {
        (ValView::Bool(_), ValView::Bool(_)) => true,
        (ValView::U32(_), ValView::U32(_)) => true,
        (ValView::I32(_), ValView::I32(_)) => true,
        (ValView::U64(_), ValView::U64(_)) => true,
        (ValView::I64(_), ValView::I64(_)) => true,
        (ValView::String(_), ValView::String(_)) => true,
        (ValView::Symbol(_), ValView::Symbol(_)) => true,
        (ValView::Address(x), ValView::Address(y)) => (x is Account || x is Contract) && (
        y is Account || y is Contract),
        _ => false,
    }
}

/// The order of two keys of the same type: numbers by value, texts and
/// addresses by their bytes, `false` before `true`, accounts before contracts.
pub open spec fn key_lt(a: ValView, b: ValView) -> bool {
    match (a, b) {
        (ValView::Bool(x), ValView::Bool(y)) => !x && y,
        (ValView::U32(x), ValView::U32(y)) => x < y,
        (ValView::I32(x), ValView::I32(y)) => x < y,
        (ValView::U64(x), ValView::U64(y)) => x < y,
        (ValView::I64(x), ValView::I64(y)) => x < y,
        (ValView::String(x), ValView::String(y)) => bytes_lt(x, y),
        (ValView::Symbol(x), ValView::Symbol(y)) => bytes_lt(x, y),
        (
            ValView::Address(AddressView::Account(x)),
            ValView::Address(AddressView::Account(y)),
        ) => bytes_lt(x, y),
        (
            ValView::Address(AddressView::Contract(x)),
            ValView::Address(AddressView::Contract(y)),
        ) => bytes_lt(x, y),
        (
            ValView::Address(AddressView::Account(_)),
            ValView::Address(AddressView::Contract(_)),
        ) => true,
        _ => false,
    }
}

/// The order of keys is irreflexive, transitive and total.
pub proof fn lemma_key_order(a: ValView, b: ValView, c: ValView)
    requires
        same_key_type(a, b),
        same_key_type(b, c),
    ensures
        same_key_type(a, c),
        !key_lt(a, a),
        key_lt(a, b) && key_lt(b, c) ==> key_lt(a, c),
        key_lt(a, b) || key_lt(b, a) || a == b,
{
    match (a, b, c) {
        (ValView::String(x), ValView::String(y), ValView::String(z)) => {
            lemma_bytes_order(x, y, z);
        },
        (ValView::Symbol(x), ValView::Symbol(y), ValView::Symbol(z)) => {
            lemma_bytes_order(x, y, z);
        },
        (ValView::Address(x), ValView::Address(y), ValView::Address(z)) => {
            let p = address_bytes(x);
            let q = address_bytes(y);
            let r = address_bytes(z);
            lemma_bytes_order(p, q, r);
        },
        _ => {},
    }
}

spec fn address_bytes(a: AddressView) -> Seq<u8> {
    match a {
        AddressView::Account(x) => x,
        AddressView::Contract(x) => x,
        _ => Seq::empty(),
    }
}

/// How long a contract's data entry lasts.
#[derive(Debug, Clone, Copy, PartialEq, Eq, Structural)]
pub enum Durability {
    Temporary,
    Persistent,
}

/// The key of a ledger entry in the footprint of a call.
#[derive(Debug, PartialEq)]
pub enum FootprintKey {
    Account([u8; 32]),
    ContractData(Address, Val, Durability),
    ContractCode([u8; 32]),
    Other(stellar_xdr::LedgerKey),
}

pub enum FootprintKeyView {
    Account(Seq<u8>),
    ContractData(AddressView, ValView, Durability),
    ContractCode(Seq<u8>),
    Other(stellar_xdr::LedgerKey),
}

impl View for FootprintKey {
    type V = FootprintKeyView;

    open spec fn view(&self) -> FootprintKeyView {
        match *self {
            FootprintKey::Account(key) => FootprintKeyView::Account(key@),
            FootprintKey::ContractData(c, k, d) => FootprintKeyView::ContractData(c@, k@, d),
            FootprintKey::ContractCode(hash) => FootprintKeyView::ContractCode(hash@),
            FootprintKey::Other(key) => FootprintKeyView::Other(key),
        }
    }
}

pub open spec fn key_views(keys: Seq<FootprintKey>) -> Seq<FootprintKeyView> {
    Seq::new(keys.len(), |i: int| keys[i]@)
}

} // verus!
