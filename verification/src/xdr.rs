//! Contract values to and from the types of `stellar_xdr`.

use vstd::prelude::*;

use std::cmp::Ordering;
use stellar_xdr::ScAddress as OutAddress;
use stellar_xdr::ScVal as OutVal;

use crate::json::canonical;
use crate::json::json_held;
use crate::json::Json;
use crate::json::JsonView;
use crate::scval::i256_value;
use crate::scval::u256_value;
use crate::text::decimal;
use crate::value::fits;
use crate::value::key_lt;
use crate::value::key_views;
use crate::value::same_key_type;
use crate::value::val_views;
use crate::value::Address;
use crate::value::AddressView;
use crate::value::Durability;
use crate::value::FootprintKey;
use crate::value::FootprintKeyView;
use crate::value::Int128Parts;
use crate::value::Int256Parts;
use crate::value::UInt128Parts;
use crate::value::UInt256Parts;
use crate::value::Val;
use crate::value::ValView;

verus! {

#[verifier::external_type_specification]
#[verifier::external_body]
pub struct ExScVal(stellar_xdr::ScVal);

#[verifier::external_type_specification]
#[verifier::external_body]
pub struct ExScAddress(stellar_xdr::ScAddress);

/// What a `stellar_xdr::ScVal` holds.
pub uninterp spec fn val_held(v: stellar_xdr::ScVal) -> ValView;

/// What a `stellar_xdr::ScAddress` holds.
pub uninterp spec fn address_held(a: stellar_xdr::ScAddress) -> AddressView;

/// The values that fill a machine word or less.
pub open spec fn is_small(v: ValView) -> bool {
    match v {
        ValView::Bool(_) => true,
        ValView::Void => true,
        ValView::U32(_) => true,
        ValView::I32(_) => true,
        ValView::U64(_) => true,
        ValView::I64(_) => true,
        ValView::Timepoint(_) => true,
        ValView::Duration(_) => true,
        ValView::LedgerKeyContractInstance => true,
        ValView::LedgerKeyNonce(_) => true,
        _ => false,
    }
}

/// The values of 256 bits.
pub open spec fn is_huge(v: ValView) -> bool {
    v is U256 || v is I256
}

/// The values that hold others, or an address.
pub open spec fn is_nested(v: ValView) -> bool {
    v is Vec || v is Mapping || v is Address
}

/// The values that are bytes.
pub open spec fn is_bytes(v: ValView) -> bool {
    v is Bytes || v is String || v is Symbol
}

/// One layer of a value that holds others, or an address.
pub enum ValLayer {
    Vec(Option<Vec<stellar_xdr::ScVal>>),
    Mapping(Option<Vec<(stellar_xdr::ScVal, stellar_xdr::ScVal)>>),
    Address(stellar_xdr::ScAddress),
}

pub open spec fn held_vals(items: Seq<stellar_xdr::ScVal>) -> Seq<ValView> {
    Seq::new(items.len(), |i: int| val_held(items[i]))
}

pub open spec fn held_entries(entries: Seq<(stellar_xdr::ScVal, stellar_xdr::ScVal)>) -> Seq<
    (ValView, ValView),
> {
    Seq::new(entries.len(), |i: int| (val_held(entries[i].0), val_held(entries[i].1)))
}

impl ValLayer {
    pub open spec fn held(self) -> ValView {
        match self {
            ValLayer::Vec(None) => ValView::Vec(None),
            ValLayer::Vec(Some(items)) => ValView::Vec(Some(held_vals(items@))),
            ValLayer::Mapping(None) => ValView::Mapping(None),
            ValLayer::Mapping(Some(entries)) => ValView::Mapping(Some(held_entries(entries@))),
            ValLayer::Address(a) => ValView::Address(address_held(a)),
        }
    }
}

/// Reads the `stellar_xdr::ScVal` variants of a machine word or less; hands any
/// other back.
#[verifier::external_body]
fn split_small(v: stellar_xdr::ScVal) -> (r: Result<Val, stellar_xdr::ScVal>)
    ensures
        match r {
            Ok(x) => x@ == val_held(v),
            Err(o) => o == v && !is_small(val_held(v)),
        },
{
    Ok(match v {
        OutVal::Bool(b) => Val::Bool(b),
        OutVal::Void => Val::Void,
        OutVal::U32(n) => Val::U32(n),
        OutVal::I32(n) => Val::I32(n),
        OutVal::U64(n) => Val::U64(n),
        OutVal::I64(n) => Val::I64(n),
        OutVal::Timepoint(t) => Val::Timepoint(t.0),
        OutVal::Duration(d) => Val::Duration(d.0),
        OutVal::LedgerKeyContractInstance => Val::LedgerKeyContractInstance,
        OutVal::LedgerKeyNonce(n) => Val::LedgerKeyNonce(n.nonce),
        other => return Err(other),
    })
}

/// Reads the `stellar_xdr::ScVal` variants that are wider than a machine word, but
/// for those of 256 bits, and hold no other value; hands any other back.
#[verifier::external_body]
fn split_wide(v: stellar_xdr::ScVal) -> (r: Result<Val, stellar_xdr::ScVal>)
    ensures
        match r {
            Ok(x) => x@ == val_held(v),
            Err(o) => o == v && (is_small(val_held(v)) || is_huge(val_held(v)) || is_nested(
                val_held(v),
            )),
        },
{
    Ok(match v {
        OutVal::Error(e) => Val::Error(e),
        OutVal::U128(p) => Val::U128(UInt128Parts { hi: p.hi, lo: p.lo }),
        OutVal::I128(p) => Val::I128(Int128Parts { hi: p.hi, lo: p.lo }),
        OutVal::Bytes(b) => Val::Bytes(b.0.into()),
        OutVal::String(s) => Val::String(s.0.into()),
        OutVal::Symbol(s) => Val::Symbol(s.0.into()),
        OutVal::ContractInstance(c) => Val::ContractInstance(c),
        other => return Err(other),
    })
}

/// Reads the `stellar_xdr::ScVal` variants of 256 bits; hands any other back.
#[verifier::external_body]
fn split_huge(v: stellar_xdr::ScVal) -> (r: Result<Val, stellar_xdr::ScVal>)
    ensures
        match r {
            Ok(x) => x@ == val_held(v),
            Err(o) => o == v && !is_huge(val_held(v)),
        },
{
    Ok(match v {
        OutVal::U256(p) => Val::U256(
            UInt256Parts { hi_hi: p.hi_hi, hi_lo: p.hi_lo, lo_hi: p.lo_hi, lo_lo: p.lo_lo }),
        OutVal::I256(p) => Val::I256(
            Int256Parts { hi_hi: p.hi_hi, hi_lo: p.hi_lo, lo_hi: p.lo_hi, lo_lo: p.lo_lo }),
        other => return Err(other),
    })
}

/// Takes apart the `stellar_xdr::ScVal` variants that hold other values, or an
/// address.
#[verifier::external_body]
fn split_nested(v: stellar_xdr::ScVal) -> (r: Option<ValLayer>)
    ensures
        match r {
            Some(layer) => layer.held() == val_held(v),
            None => !is_nested(val_held(v)),
        },
{
    Some(match v {
        OutVal::Vec(items) => ValLayer::Vec(items.map(|i| i.0.into())),
        OutVal::Map(map) => ValLayer::Mapping(
            map.map(|m| m.0.into_vec().into_iter().map(|e| (e.key, e.val)).collect()),
        ),
        OutVal::Address(a) => ValLayer::Address(a),
        _ => return None,
    })
}

/// Builds the `stellar_xdr::ScVal` variants of a machine word or less.
#[verifier::external_body]
fn join_small(v: &Val) -> (r: Option<stellar_xdr::ScVal>)
    ensures
        match r {
            Some(x) => val_held(x) == v@ && is_small(v@),
            None => !is_small(v@),
        },
{
    Some(match v {
        Val::Bool(b) => OutVal::Bool(*b),
        Val::Void => OutVal::Void,
        Val::U32(n) => OutVal::U32(*n),
        Val::I32(n) => OutVal::I32(*n),
        Val::U64(n) => OutVal::U64(*n),
        Val::I64(n) => OutVal::I64(*n),
        Val::Timepoint(n) => OutVal::Timepoint(stellar_xdr::TimePoint(*n)),
        Val::Duration(n) => OutVal::Duration(stellar_xdr::Duration(*n)),
        Val::LedgerKeyContractInstance => OutVal::LedgerKeyContractInstance,
        Val::LedgerKeyNonce(n) => OutVal::LedgerKeyNonce(stellar_xdr::ScNonceKey { nonce: *n }),
        _ => return None,
    })
}

/// Builds the `stellar_xdr::ScVal` variants of bytes, strings and symbols. They are
/// refused beyond the length that `BytesM` and `StringM` allow.
#[verifier::external_body]
fn join_bytes(v: &Val) -> (r: Option<stellar_xdr::ScVal>)
    ensures
        match r {
            Some(x) => val_held(x) == v@ && is_bytes(v@) && fits(v@),
            None => !is_bytes(v@) || !fits(v@),
        },
{
    Some(match v {
        Val::Bytes(b) => OutVal::Bytes(stellar_xdr::ScBytes(b.try_into().ok()?)),
        Val::String(b) => OutVal::String(stellar_xdr::ScString(b.try_into().ok()?)),
        Val::Symbol(b) => OutVal::Symbol(stellar_xdr::ScSymbol(b.try_into().ok()?)),
        _ => return None,
    })
}

/// Builds the `stellar_xdr::ScVal` variants of 256 bits.
#[verifier::external_body]
fn join_huge(v: &Val) -> (r: Option<stellar_xdr::ScVal>)
    ensures
        match r {
            Some(x) => val_held(x) == v@ && is_huge(v@),
            None => !is_huge(v@),
        },
{
    Some(match v {
        Val::U256(p) => OutVal::U256(stellar_xdr::UInt256Parts {
            hi_hi: p.hi_hi, hi_lo: p.hi_lo, lo_hi: p.lo_hi, lo_lo: p.lo_lo }),
        Val::I256(p) => OutVal::I256(stellar_xdr::Int256Parts {
            hi_hi: p.hi_hi, hi_lo: p.hi_lo, lo_hi: p.lo_hi, lo_lo: p.lo_lo }),
        _ => return None,
    })
}

/// Builds the `stellar_xdr::ScVal` variants that are wider than a machine word,
/// and neither of 256 bits nor bytes nor made of other values.
#[verifier::external_body]
fn join_wide(v: &Val) -> (r: Option<stellar_xdr::ScVal>)
    ensures
        match r {
            Some(x) => val_held(x) == v@ && !is_small(v@) && !is_huge(v@) && !is_nested(v@)
                && !is_bytes(v@),
            None => is_small(v@) || is_huge(v@) || is_nested(v@) || is_bytes(v@),
        },
{
    Some(match v {
        Val::Error(e) => OutVal::Error(e.clone()),
        Val::U128(p) => OutVal::U128(stellar_xdr::UInt128Parts { hi: p.hi, lo: p.lo }),
        Val::I128(p) => OutVal::I128(stellar_xdr::Int128Parts { hi: p.hi, lo: p.lo }),
        Val::ContractInstance(c) => OutVal::ContractInstance(c.clone()),
        _ => return None,
    })
}

/// Builds the `stellar_xdr::ScVal` variants that hold other values, or an
/// address. More elements than `VecM` allows are refused.
#[verifier::external_body]
fn join_nested(layer: ValLayer) -> (r: Option<stellar_xdr::ScVal>)
    ensures
        match r {
            Some(x) => val_held(x) == layer.held(),
            None => match layer {
                ValLayer::Vec(Some(items)) => items@.len() > u32::MAX,
                ValLayer::Mapping(Some(entries)) => entries@.len() > u32::MAX,
                _ => false,
            },
        },
        r is Some ==> match layer {
            ValLayer::Vec(Some(items)) => items@.len() <= u32::MAX,
            ValLayer::Mapping(Some(entries)) => entries@.len() <= u32::MAX,
            _ => true,
        },
{
    Some(match layer {
        ValLayer::Vec(None) => OutVal::Vec(None),
        ValLayer::Vec(Some(items)) => OutVal::Vec(Some(stellar_xdr::ScVec(items.try_into().ok()?))),
        ValLayer::Mapping(None) => OutVal::Map(None),
        ValLayer::Mapping(Some(entries)) => OutVal::Map(Some(stellar_xdr::ScMap(
            entries.into_iter().map(|e| stellar_xdr::ScMapEntry { key: e.0, val: e.1 })
                .collect::<Vec<_>>().try_into().ok()?,
        ))),
        ValLayer::Address(a) => OutVal::Address(a),
    })
}

/// Reads a `stellar_xdr::ScAddress`.
#[verifier::external_body]
fn split_address(a: stellar_xdr::ScAddress) -> (r: Address)
    ensures
        r@ == address_held(a),
{
    match a {
        OutAddress::Account(stellar_xdr::AccountId(
            stellar_xdr::PublicKey::PublicKeyTypeEd25519(key),
        )) => Address::Account(key.0),
        OutAddress::Contract(id) => Address::Contract(id.0.0),
        OutAddress::MuxedAccount(m) => Address::MuxedAccount(m),
        OutAddress::ClaimableBalance(b) => Address::ClaimableBalance(b),
        OutAddress::LiquidityPool(p) => Address::LiquidityPool(p),
    }
}

/// Builds a `stellar_xdr::ScAddress`.
#[verifier::external_body]
pub(crate) fn join_address(a: &Address) -> (r: stellar_xdr::ScAddress)
    ensures
        address_held(r) == a@,
{
    match a {
        Address::Account(key) => OutAddress::Account(stellar_xdr::AccountId(
            stellar_xdr::PublicKey::PublicKeyTypeEd25519(stellar_xdr::Uint256(*key)),
        )),
        Address::Contract(id) => OutAddress::Contract(
            stellar_xdr::ContractId(stellar_xdr::Hash(*id)),
        ),
        Address::MuxedAccount(m) => OutAddress::MuxedAccount(m.clone()),
        Address::ClaimableBalance(b) => OutAddress::ClaimableBalance(b.clone()),
        Address::LiquidityPool(p) => OutAddress::LiquidityPool(p.clone()),
    }
}

impl Val {
    /// Reads a `stellar_xdr::ScVal`.
    pub fn from_xdr(v: stellar_xdr::ScVal) -> (r: Val)
        ensures
            r@ == val_held(v),
        decreases val_held(v),
    {
        let ghost whole = val_held(v);
        let v1 = match split_small(v) {
            Ok(x) => return x,
            Err(o) => o,
        };
        let v2 = match split_wide(v1) {
            Ok(x) => return x,
            Err(o) => o,
        };
        let v3 = match split_huge(v2) {
            Ok(x) => return x,
            Err(o) => o,
        };
        match split_nested(v3) {
            Some(ValLayer::Vec(Some(items))) => {
                let ghost all = items@;
                proof {
                    assert(whole == ValView::Vec(Some(held_vals(all))));
                    assert(decreases_to!(whole => whole->Vec_0));
                    assert(decreases_to!(whole->Vec_0 => whole->Vec_0->0));
                }
                let mut out: Vec<Val> = Vec::new();
                for item in it: items
                    invariant
                        it.seq() == all,
                        whole == val_held(v),
                        whole == ValView::Vec(Some(held_vals(all))),
                        decreases_to!(whole => whole->Vec_0),
                        decreases_to!(whole->Vec_0 => whole->Vec_0->0),
                        out@.len() == it.index(),
                        forall|k: int|
                            0 <= k < it.index() ==> (#[trigger] out@[k])@ == val_held(all[k]),
                {
                    proof {
                        assert(whole->Vec_0->0[it.index()] == val_held(item));
                    }
                    out.push(Val::from_xdr(item));
                }
                assert(val_views(out@) =~= held_vals(all));
                Val::Vec(Some(out))
            },
            Some(ValLayer::Vec(None)) => Val::Vec(None),
            Some(ValLayer::Mapping(Some(entries))) => {
                let ghost all = entries@;
                proof {
                    assert(whole == ValView::Mapping(Some(held_entries(all))));
                    assert(decreases_to!(whole => whole->Mapping_0));
                    assert(decreases_to!(whole->Mapping_0 => whole->Mapping_0->0));
                }
                let mut out: Vec<(Val, Val)> = Vec::new();
                for entry in it: entries
                    invariant
                        it.seq() == all,
                        whole == val_held(v),
                        whole == ValView::Mapping(Some(held_entries(all))),
                        decreases_to!(whole => whole->Mapping_0),
                        decreases_to!(whole->Mapping_0 => whole->Mapping_0->0),
                        out@.len() == it.index(),
                        forall|k: int|
                            0 <= k < it.index() ==> (#[trigger] out@[k]).0@ == val_held(all[k].0)
                                && out@[k].1@ == val_held(all[k].1),
                {
                    proof {
                        let held = whole->Mapping_0->0;
                        assert(decreases_to!(held => held[it.index()]));
                        assert(decreases_to!(held[it.index()] => held[it.index()].0));
                        assert(decreases_to!(held[it.index()] => held[it.index()].1));
                        assert(held[it.index()] == (val_held(entry.0), val_held(entry.1)));
                    }
                    out.push((Val::from_xdr(entry.0), Val::from_xdr(entry.1)));
                }
                assert(crate::value::entry_views(out@) =~= held_entries(all));
                Val::Mapping(Some(out))
            },
            Some(ValLayer::Mapping(None)) => Val::Mapping(None),
            Some(ValLayer::Address(a)) => Val::Address(split_address(a)),
            None => {
                assert(false);
                Val::Void
            },
        }
    }

    /// Builds the `stellar_xdr::ScVal` for this value, if it keeps to the limits
    /// of the wire format.
    pub fn to_xdr(&self) -> (r: Option<stellar_xdr::ScVal>)
        ensures
            match r {
                Some(x) => val_held(x) == self@ && fits(self@),
                None => !fits(self@),
            },
        decreases self@,
    {
        match self {
            Val::Vec(Some(items)) => {
                proof {
                    assert(self@ == ValView::Vec(Some(val_views(items@))));
                    assert(decreases_to!(self@ => self@->Vec_0));
                    assert(decreases_to!(self@->Vec_0 => self@->Vec_0->0));
                }
                let mut out: Vec<stellar_xdr::ScVal> = Vec::new();
                let mut i: usize = 0;
                while i < items.len()
                    invariant
                        i <= items@.len(),
                        out@.len() == i,
                        self@ == ValView::Vec(Some(val_views(items@))),
                        decreases_to!(self@ => self@->Vec_0),
                        decreases_to!(self@->Vec_0 => self@->Vec_0->0),
                        forall|k: int|
                            0 <= k < i ==> val_held(#[trigger] out@[k]) == val_views(items@)[k],
                        forall|k: int| 0 <= k < i ==> fits(#[trigger] val_views(items@)[k]),
                    decreases items@.len() - i,
                {
                    proof {
                        assert(self@->Vec_0->0[i as int] == items@[i as int]@);
                    }
                    match items[i].to_xdr() {
                        Some(x) => out.push(x),
                        None => {
                            assert(!fits(val_views(items@)[i as int]));
                            return None;
                        },
                    }
                    i += 1;
                }
                assert(held_vals(out@) =~= val_views(items@));
                join_nested(ValLayer::Vec(Some(out)))
            },
            Val::Vec(None) => join_nested(ValLayer::Vec(None)),
            Val::Mapping(Some(entries)) => {
                proof {
                    assert(self@ == ValView::Mapping(
                        Some(crate::value::entry_views(entries@)),
                    ));
                    assert(decreases_to!(self@ => self@->Mapping_0));
                    assert(decreases_to!(self@->Mapping_0 => self@->Mapping_0->0));
                }
                let mut out: Vec<(stellar_xdr::ScVal, stellar_xdr::ScVal)> = Vec::new();
                let mut i: usize = 0;
                while i < entries.len()
                    invariant
                        i <= entries@.len(),
                        out@.len() == i,
                        self@ == ValView::Mapping(Some(crate::value::entry_views(entries@))),
                        decreases_to!(self@ => self@->Mapping_0),
                        decreases_to!(self@->Mapping_0 => self@->Mapping_0->0),
                        forall|k: int|
                            0 <= k < i ==> val_held((#[trigger] out@[k]).0) == entries@[k].0@
                                && val_held(out@[k].1) == entries@[k].1@,
                        forall|k: int|
                            0 <= k < i ==> fits(
                                (#[trigger] crate::value::entry_views(entries@)[k]).0,
                            ) && fits(crate::value::entry_views(entries@)[k].1),
                    decreases entries@.len() - i,
                {
                    proof {
                        let held = self@->Mapping_0->0;
                        assert(decreases_to!(held => held[i as int]));
                        assert(decreases_to!(held[i as int] => held[i as int].0));
                        assert(decreases_to!(held[i as int] => held[i as int].1));
                        assert(held[i as int] == (entries@[i as int].0@, entries@[i as int].1@));
                    }
                    match (entries[i].0.to_xdr(), entries[i].1.to_xdr()) {
                        (Some(k), Some(v)) => out.push((k, v)),
                        _ => {
                            assert(!fits(crate::value::entry_views(entries@)[i as int].0)
                                || !fits(crate::value::entry_views(entries@)[i as int].1));
                            return None;
                        },
                    }
                    i += 1;
                }
                assert(held_entries(out@) =~= crate::value::entry_views(entries@));
                join_nested(ValLayer::Mapping(Some(out)))
            },
            Val::Mapping(None) => join_nested(ValLayer::Mapping(None)),
            Val::Address(a) => join_nested(ValLayer::Address(join_address(a))),
            Val::Bytes(_) | Val::String(_) | Val::Symbol(_) => join_bytes(self),
            Val::U256(_) | Val::I256(_) => join_huge(self),
            _ => match join_small(self) {
                Some(x) => Some(x),
                None => join_wide(self),
            },
        }
    }
}

/// Compares two values as `Ord` of `stellar_xdr::ScVal` does, which is derived:
/// booleans and numbers by value, texts and addresses by their bytes, accounts
/// before contracts. Nothing is said of values of other types, or of two
/// different types.
#[verifier::external_body]
pub(crate) fn order_of(a: &stellar_xdr::ScVal, b: &stellar_xdr::ScVal) -> (r: Ordering)
    ensures
        same_key_type(val_held(*a), val_held(*b)) ==> match r {
            Ordering::Less => key_lt(val_held(*a), val_held(*b)),
            Ordering::Equal => val_held(*a) == val_held(*b),
            Ordering::Greater => key_lt(val_held(*b), val_held(*a)),
        },
{
    a.cmp(b)
}

/// The value that a JSON value denotes in the notation of `stellar_xdr`, or what
/// is wrong with it.
pub uninterp spec fn val_of_json(j: JsonView) -> Result<ValView, Seq<char>>;

/// `serde_json::from_value` into a `stellar_xdr::ScVal`.
#[verifier::external_body]
fn read_val(v: serde_json::Value) -> (r: Result<stellar_xdr::ScVal, String>)
    ensures
        match r {
            Ok(x) => val_of_json(json_held(v)) == Ok::<ValView, Seq<char>>(val_held(x)),
            Err(e) => val_of_json(json_held(v)) == Err::<ValView, Seq<char>>(e@),
        },
{
    serde_json::from_value(v).map_err(|e| e.to_string())
}

/// The value that a base64 text holds on the wire, if it is one.
pub uninterp spec fn val_of_base64(s: Seq<char>) -> Option<ValView>;

/// `ReadXdr::from_xdr_base64` of `stellar_xdr::ScVal`, without limits.
#[verifier::external_body]
fn read_val_base64(s: &str) -> (r: Option<stellar_xdr::ScVal>)
    ensures
        match r {
            Some(x) => val_of_base64(s@) == Some(val_held(x)),
            None => val_of_base64(s@) is None,
        },
{
    <stellar_xdr::ScVal as stellar_xdr::ReadXdr>::from_xdr_base64(s, stellar_xdr::Limits::none())
        .ok()
}

impl Val {
    /// Reads the JSON notation that `stellar_xdr` has for a value.
    pub fn from_json_notation(j: &Json) -> (r: Result<Val, String>)
        ensures
            match r {
                Ok(v) => val_of_json(canonical(j@)) == Ok::<ValView, Seq<char>>(v@),
                Err(e) => val_of_json(canonical(j@)) == Err::<ValView, Seq<char>>(e@),
            },
    {
        match read_val(j.to_value()) {
            Ok(x) => Ok(Val::from_xdr(x)),
            Err(e) => Err(e),
        }
    }

    /// Reads a value in base64.
    pub fn from_base64(s: &str) -> (r: Option<Val>)
        ensures
            match r {
                Some(v) => val_of_base64(s@) == Some(v@),
                None => val_of_base64(s@) is None,
            },
    {
        match read_val_base64(s) {
            Some(x) => Some(Val::from_xdr(x)),
            None => None,
        }
    }
}

/// `Display` of `stellar_xdr::UInt256Parts`: the decimal notation of the integer.
#[verifier::external_body]
pub(crate) fn u256_text(p: &UInt256Parts) -> (r: String)
    ensures
        r@ == decimal(u256_value(*p)),
{
    stellar_xdr::UInt256Parts { hi_hi: p.hi_hi, hi_lo: p.hi_lo, lo_hi: p.lo_hi, lo_lo: p.lo_lo }
        .to_string()
}

/// `Display` of `stellar_xdr::Int256Parts`: the decimal notation of the integer.
#[verifier::external_body]
pub(crate) fn i256_text(p: &Int256Parts) -> (r: String)
    ensures
        r@ == decimal(i256_value(*p)),
{
    stellar_xdr::Int256Parts { hi_hi: p.hi_hi, hi_lo: p.hi_lo, lo_hi: p.lo_hi, lo_lo: p.lo_lo }
        .to_string()
}

/// The debug notation of an error value.
pub uninterp spec fn error_debug(e: stellar_xdr::ScError) -> Seq<char>;

/// `Debug` of `stellar_xdr::ScError`.
#[verifier::external_body]
pub(crate) fn debug_error(e: &stellar_xdr::ScError) -> (r: String)
    ensures
        r@ == error_debug(*e),
{
    format!("{:?}", e)
}

/// The debug notation of an address.
pub uninterp spec fn address_debug(a: AddressView) -> Seq<char>;

/// `Debug` of `stellar_xdr::ScAddress`.
#[verifier::external_body]
fn debug_xdr_address(a: &stellar_xdr::ScAddress) -> (r: String)
    ensures
        r@ == address_debug(address_held(*a)),
{
    format!("{:?}", a)
}

/// The debug notation of an address.
pub fn debug_address(a: &Address) -> (r: String)
    ensures
        r@ == address_debug(a@),
{
    debug_xdr_address(&join_address(a))
}

#[verifier::external_type_specification]
#[verifier::external_body]
pub struct ExSorobanTransactionData(stellar_xdr::SorobanTransactionData);

/// The resources that a base64 text holds on the wire, if it does.
pub uninterp spec fn resources_of_base64(s: Seq<char>) -> Option<
    stellar_xdr::SorobanTransactionData,
>;

/// `ReadXdr::from_xdr_base64` of `stellar_xdr::SorobanTransactionData`, without
/// limits.
#[verifier::external_body]
pub(crate) fn read_resources(s: &str) -> (r: Option<stellar_xdr::SorobanTransactionData>)
    ensures
        r == resources_of_base64(s@),
{
    <stellar_xdr::SorobanTransactionData as stellar_xdr::ReadXdr>::from_xdr_base64(
        s,
        stellar_xdr::Limits::none(),
    ).ok()
}

/// `Clone` of `stellar_xdr::SorobanTransactionData`: the copy is what was copied.
pub assume_specification[ <stellar_xdr::SorobanTransactionData as Clone>::clone ](
    d: &stellar_xdr::SorobanTransactionData,
) -> (r: stellar_xdr::SorobanTransactionData)
    ensures
        r == *d,
;

/// What a `stellar_xdr::LedgerKey` holds.
pub uninterp spec fn key_held(k: stellar_xdr::LedgerKey) -> FootprintKeyView;

/// The keys of the entries that a call writes.
pub uninterp spec fn writes_held(d: stellar_xdr::SorobanTransactionData) -> Seq<FootprintKeyView>;

pub open spec fn held_keys(keys: Seq<stellar_xdr::LedgerKey>) -> Seq<FootprintKeyView> {
    Seq::new(keys.len(), |i: int| key_held(keys[i]))
}

/// Takes the read-write part out of the footprint in a
/// `stellar_xdr::SorobanTransactionData`.
#[verifier::external_body]
fn split_writes(d: &stellar_xdr::SorobanTransactionData) -> (r: Vec<stellar_xdr::LedgerKey>)
    ensures
        held_keys(r@) == writes_held(*d),
{
    d.resources.footprint.read_write.to_vec()
}

/// One layer of a ledger key.
pub enum KeyLayer {
    Account([u8; 32]),
    ContractData(stellar_xdr::ScAddress, stellar_xdr::ScVal, Durability),
    ContractCode([u8; 32]),
    Other(stellar_xdr::LedgerKey),
}

impl KeyLayer {
    pub open spec fn held(self) -> FootprintKeyView {
        match self {
            KeyLayer::Account(key) => FootprintKeyView::Account(key@),
            KeyLayer::ContractData(c, k, d) => FootprintKeyView::ContractData(
                address_held(c),
                val_held(k),
                d,
            ),
            KeyLayer::ContractCode(hash) => FootprintKeyView::ContractCode(hash@),
            KeyLayer::Other(key) => FootprintKeyView::Other(key),
        }
    }
}

/// Takes a `stellar_xdr::LedgerKey` apart by its variant.
#[verifier::external_body]
fn split_key(k: stellar_xdr::LedgerKey) -> (r: KeyLayer)
    ensures
        r.held() == key_held(k),
{
    match k {
        stellar_xdr::LedgerKey::Account(a) => {
            let stellar_xdr::PublicKey::PublicKeyTypeEd25519(key) = a.account_id.0;
            KeyLayer::Account(key.0)
        },
        stellar_xdr::LedgerKey::ContractData(d) => KeyLayer::ContractData(
            d.contract, d.key, match d.durability {
                stellar_xdr::ContractDataDurability::Temporary => Durability::Temporary,
                stellar_xdr::ContractDataDurability::Persistent => Durability::Persistent,
            }),
        stellar_xdr::LedgerKey::ContractCode(c) => KeyLayer::ContractCode(c.hash.0),
        other => KeyLayer::Other(other),
    }
}

/// The keys of the entries that a call writes.
pub fn writes_of(d: &stellar_xdr::SorobanTransactionData) -> (r: Vec<FootprintKey>)
    ensures
        key_views(r@) == writes_held(*d),
{
    let keys = split_writes(d);
    let ghost all = keys@;
    let mut out: Vec<FootprintKey> = Vec::new();
    for key in it: keys
        invariant
            it.seq() == all,
            out@.len() == it.index(),
            forall|k: int| 0 <= k < it.index() ==> (#[trigger] out@[k])@ == key_held(all[k]),
    {
        out.push(
            match split_key(key) {
                KeyLayer::Account(a) => FootprintKey::Account(a),
                KeyLayer::ContractData(c, k, d) => FootprintKey::ContractData(
                    split_address(c),
                    Val::from_xdr(k),
                    d,
                ),
                KeyLayer::ContractCode(hash) => FootprintKey::ContractCode(hash),
                KeyLayer::Other(key) => FootprintKey::Other(key),
            },
        );
    }
    assert(key_views(out@) =~= held_keys(all));
    out
}

/// The debug notation of a ledger key.
pub uninterp spec fn ledger_key_debug(k: stellar_xdr::LedgerKey) -> Seq<char>;

/// `Debug` of `stellar_xdr::LedgerKey`.
#[verifier::external_body]
pub(crate) fn debug_ledger_key(k: &stellar_xdr::LedgerKey) -> (r: String)
    ensures
        r@ == ledger_key_debug(*k),
{
    format!("{:?}", k)
}

} // verus!
