//! Where a contract's interface comes from: its WASM module, found on the network
//! by the hash, and kept once it is read.

use vstd::prelude::*;

use crate::encoding::hex_bytes;
use crate::encoding::hex_complaint;
use crate::encoding::hex_decode;
use crate::encoding::is_hex;
use crate::error::told;
use crate::error::Failure;
use crate::json::Json;
use crate::json::JsonView;
use crate::rpc::first_in;
use crate::rpc::list_in;
use crate::rpc::str_field_of;
use crate::rpc::ValueExt;
use crate::spec::gathered;
use crate::spec::read_spec_entries_from_wasm;
use crate::spec::wasm_entries;
use crate::spec::ContractSpec;
use crate::spec::SpecView;
use crate::table::Table;
use crate::handlers::same_but_case;
use crate::text::ascii_lower;
use crate::text::cat2;
use crate::text::cat3;
use crate::text::is_white_space;
use crate::text::lowercase;
use crate::text::lowered_ascii;
use crate::text::to_lowercase;
use crate::text::trim;
use crate::text::trimmed;
use crate::xdr_tx::debug_ledger_entry;
use crate::xdr_tx::encode_lookup_key;
use crate::xdr_tx::ledger_entry_debug;
use crate::xdr_tx::ledger_entry_held;
use crate::xdr_tx::ledger_entry_of_base64;
use crate::xdr_tx::lookup_key_base64;
use crate::xdr_tx::read_ledger_entry;
use crate::xdr_tx::split_ledger_entry;
use crate::xdr_tx::LedgerEntry;
use crate::xdr_tx::LedgerEntryView;
use crate::xdr_tx::LookupKey;
use crate::xdr_tx::LookupKeyView;

verus! {

/// The hash that a hexadecimal text denotes, white space around it aside.
pub open spec fn wasm_hash_of(s: Seq<char>) -> Result<Seq<u8>, Seq<char>> {
    let digits = trimmed(s);
    if !is_hex(digits) {
        Err("wasm hash must be hex-encoded: "@ + hex_complaint(digits))
    } else if hex_bytes(digits).len() != 32 {
        Err("wasm hash must be exactly 32 bytes (64 hex characters)"@)
    } else {
        Ok(hex_bytes(digits))
    }
}

/// Thirty-two bytes as an array.
fn array_of(b: &Vec<u8>) -> (r: [u8; 32])
    requires
        b@.len() == 32,
    ensures
        r@ == b@,
{
    let mut out: [u8; 32] = [0u8; 32];
    let mut i: usize = 0;
    while i < 32
        invariant
            i <= 32,
            b@.len() == 32,
            forall|k: int| 0 <= k < i ==> #[trigger] out@[k] == b@[k],
        decreases 32 - i,
    {
        out[i] = b[i];
        i += 1;
    }
    assert(out@ =~= b@);
    out
}

/// Reads the hash of a WASM module.
pub fn parse_wasm_hash(wasm_hash_hex: &str) -> (r: Result<[u8; 32], Failure>)
    ensures
        told(r) == wasm_hash_of(wasm_hash_hex@),
{
    match hex_decode(trim(wasm_hash_hex).as_str()) {
        Err(e) => Err(Failure::new(cat2("wasm hash must be hex-encoded: ", e.as_str()))),
        Ok(b) => if b.len() != 32 {
            Err(Failure::of("wasm hash must be exactly 32 bytes (64 hex characters)"))
        } else {
            Ok(array_of(&b))
        },
    }
}

/// The base64 key of the ledger entry with the code of a hash, or why there is
/// none.
pub open spec fn code_key(wasm_hash_hex: Seq<char>) -> Result<Seq<char>, Seq<char>> {
    match wasm_hash_of(wasm_hash_hex) {
        Err(e) => Err(e),
        Ok(hash) => Ok(lookup_key_base64(LookupKeyView::ContractCode(hash))),
    }
}

/// The base64 key to ask the network for a contract's code with.
pub fn wasm_key(wasm_hash_hex: &str) -> (r: Result<String, Failure>)
    ensures
        told(r) == code_key(wasm_hash_hex@),
{
    match parse_wasm_hash(wasm_hash_hex) {
        Err(e) => Err(e),
        Ok(hash) => match encode_lookup_key(&LookupKey::ContractCode(hash)) {
            Ok(s) => Ok(s),
            Err(_) => Err(Failure::of("failed encoding ledger key")),
        },
    }
}

/// The code in the network's reply to the question for it, or why there is none.
pub open spec fn code_in(resp: JsonView, wasm_hash_hex: Seq<char>) -> Result<Seq<u8>, Seq<char>> {
    let entries = list_in(resp, "entries"@);
    if entries.len() == 0 {
        Err(
            "no contract WASM found on-chain for hash `"@ + wasm_hash_hex
                + "` (it may not be uploaded on this network, or the hash is wrong)"@,
        )
    } else {
        match str_field_of(entries[0], "xdr"@) {
            Err(e) => Err(e),
            Ok(xdr) => match ledger_entry_of_base64(xdr) {
                None => Err("failed decoding ContractCode ledger entry"@),
                Some(d) => match ledger_entry_held(d) {
                    LedgerEntryView::ContractCode(code) => Ok(code),
                    _ => Err(
                        "expected a ContractCode ledger entry, got "@ + ledger_entry_debug(d),
                    ),
                },
            },
        }
    }
}

/// Takes a contract's code out of the network's reply to the question for it.
pub fn fetch_wasm_by_hash(resp: &Json, wasm_hash_hex: &str) -> (r: Result<Vec<u8>, Failure>)
    ensures
        told(r) == code_in(resp@, wasm_hash_hex@),
{
    let entry = match first_in(resp, "entries") {
        Some(entry) => entry,
        None => return Err(
            Failure::new(
                cat3(
                    "no contract WASM found on-chain for hash `",
                    wasm_hash_hex,
                    "` (it may not be uploaded on this network, or the hash is wrong)",
                ),
            ),
        ),
    };
    let xdr = match entry.as_str_field("xdr") {
        Ok(xdr) => xdr,
        Err(e) => return Err(e),
    };
    match read_ledger_entry(xdr) {
        None => Err(Failure::of("failed decoding ContractCode ledger entry")),
        Some(d) => match split_ledger_entry(&d) {
            LedgerEntry::ContractCode(code) => Ok(code),
            _ => Err(
                Failure::new(
                    cat2(
                        "expected a ContractCode ledger entry, got ",
                        debug_ledger_entry(&d).as_str(),
                    ),
                ),
            ),
        },
    }
}

/// The name that the interface of a hash is kept under: the hash in lower case,
/// without white space around it.
pub open spec fn cache_key(wasm_hash_hex: Seq<char>) -> Seq<char> {
    lowercase(trimmed(wasm_hash_hex))
}

/// What a look for an interface comes to: it is kept already, or the network has
/// to be asked for the ledger entry of a key.
#[derive(Debug, PartialEq)]
pub enum SpecLookup<'a> {
    Kept(&'a ContractSpec),
    Fetch { key: String, ledger_key: String },
}

pub enum SpecLookupView {
    Kept(SpecView),
    Fetch { key: Seq<char>, ledger_key: Seq<char> },
}

impl<'a> View for SpecLookup<'a> {
    type V = SpecLookupView;

    open spec fn view(&self) -> SpecLookupView {
        match *self {
            SpecLookup::Kept(spec) => SpecLookupView::Kept(spec@),
            SpecLookup::Fetch { key, ledger_key } => SpecLookupView::Fetch {
                key: key@,
                ledger_key: ledger_key@,
            },
        }
    }
}

/// The interface that is kept under a key.
pub open spec fn kept_at(cache: Table<ContractSpec>, key: Seq<char>) -> Option<SpecView> {
    match cache.at(key) {
        Some(spec) => Some(spec@),
        None => None,
    }
}

/// Where the interface of a key is, by what is kept under the key.
pub open spec fn lookup_of(kept: Option<SpecView>, key: Seq<char>) -> Result<
    SpecLookupView,
    Seq<char>,
> {
    match wasm_hash_of(key) {
        Err(e) => Err(e),
        Ok(_) => match kept {
            Some(spec) => Ok(SpecLookupView::Kept(spec)),
            None => match code_key(key) {
                Ok(ledger_key) => Ok(SpecLookupView::Fetch { key, ledger_key }),
                Err(e) => Err(e),
            },
        },
    }
}

/// Looks for the interface of a WASM hash among those that are kept. A hash that
/// is malformed is refused before it is looked up.
pub fn get_or_fetch_spec<'a>(cache: &'a Table<ContractSpec>, wasm_hash_hex: &str) -> (r: Result<
    SpecLookup<'a>,
    Failure,
>)
    ensures
        told(r) == lookup_of(
            kept_at(*cache, cache_key(wasm_hash_hex@)),
            cache_key(wasm_hash_hex@),
        ),
        r matches Ok(SpecLookup::Kept(spec)) ==> cache.at(cache_key(wasm_hash_hex@)) == Some(
            *spec,
        ),
{
    let key = to_lowercase(trim(wasm_hash_hex).as_str());
    match parse_wasm_hash(key.as_str()) {
        Err(e) => return Err(e),
        Ok(_) => {},
    }
    match cache.get(key.as_str()) {
        Some(spec) => Ok(SpecLookup::Kept(spec)),
        None => match wasm_key(key.as_str()) {
            Ok(ledger_key) => Ok(SpecLookup::Fetch { key, ledger_key }),
            Err(e) => Err(e),
        },
    }
}

/// The interface in the network's reply to the question for a contract's code, or
/// why there is none.
pub open spec fn fetched_spec(resp: JsonView, key: Seq<char>) -> Result<SpecView, Seq<char>> {
    match code_in(resp, key) {
        Err(e) => Err(e),
        Ok(code) => match wasm_entries(code) {
            Err(e) => Err(e),
            Ok(entries) => Ok(gathered(entries, entries.len() as int)),
        },
    }
}

/// Reads the interface in the network's reply to the question for a contract's
/// code.
pub fn read_fetched_spec(resp: &Json, key: &str) -> (r: Result<ContractSpec, Failure>)
    ensures
        told(r) == fetched_spec(resp@, key@),
        r matches Ok(spec) ==> spec@.well_formed(),
{
    match fetch_wasm_by_hash(resp, key) {
        Err(e) => Err(e),
        Ok(code) => match read_spec_entries_from_wasm(code.as_slice()) {
            Err(e) => Err(e),
            Ok(entries) => Ok(ContractSpec::from_entries(entries)),
        },
    }
}

/// What is kept under a key once the network's reply for it has come.
pub open spec fn kept_after(kept: Option<SpecView>, resp: JsonView, key: Seq<char>) -> Option<
    SpecView,
> {
    match fetched_spec(resp, key) {
        Ok(spec) => Some(spec),
        Err(_) => kept,
    }
}

/// Keeps the interface in the network's reply under a key. Nothing is kept if the
/// reply has none.
pub fn keep_fetched_spec(cache: &mut Table<ContractSpec>, key: String, resp: &Json) -> (r: Result<
    (),
    Failure,
>)
    ensures
        match r {
            Ok(_) => fetched_spec(resp@, key@) is Ok,
            Err(e) => fetched_spec(resp@, key@) == Err::<SpecView, Seq<char>>(e@),
        },
        kept_at(*final(cache), key@) == kept_after(kept_at(*old(cache), key@), resp@, key@),
        forall|other: Seq<char>| other != key@ ==> #[trigger] final(cache).at(other) == old(
            cache,
        ).at(other),
{
    match read_fetched_spec(resp, key.as_str()) {
        Err(e) => Err(e),
        Ok(spec) => {
            cache.insert(key, spec);
            Ok(())
        },
    }
}

/// An interface is asked for once: after a reply that has it, it is found where it
/// is kept, and a reply that has none changes nothing.
pub proof fn law_interface_is_fetched_once(
    kept: Option<SpecView>,
    resp: JsonView,
    key: Seq<char>,
)
    requires
        wasm_hash_of(key) is Ok,
    ensures
        match fetched_spec(resp, key) {
            Ok(spec) => lookup_of(kept_after(kept, resp, key), key) == Ok::<
                SpecLookupView,
                Seq<char>,
            >(SpecLookupView::Kept(spec)),
            Err(_) => lookup_of(kept_after(kept, resp, key), key) == lookup_of(kept, key),
        },
{
}

/// A text without the white space at its ends has none there.
proof fn lemma_trimmed_twice(s: Seq<char>)
    ensures
        trimmed(trimmed(s)) == trimmed(s),
        vstd::utf8::is_ascii_chars(s) ==> vstd::utf8::is_ascii_chars(trimmed(s)),
    decreases s.len(),
{
    if s.len() > 0 && is_white_space(s[0]) {
        lemma_trimmed_twice(s.skip(1));
    } else if s.len() > 0 && is_white_space(s.last()) {
        lemma_trimmed_twice(s.drop_last());
    }
}

/// The white space of ASCII has no lower case of its own.
proof fn lemma_trimmed_lowered(s: Seq<char>)
    ensures
        trimmed(lowered_ascii(s)) == lowered_ascii(trimmed(s)),
    decreases s.len(),
{
    let low = lowered_ascii(s);
    if s.len() > 0 && is_white_space(s[0]) {
        lemma_trimmed_lowered(s.skip(1));
        assert(low.skip(1) =~= lowered_ascii(s.skip(1)));
    } else if s.len() > 0 && is_white_space(s.last()) {
        lemma_trimmed_lowered(s.drop_last());
        assert(low.drop_last() =~= lowered_ascii(s.drop_last()));
        assert(low.last() == ascii_lower(s.last()));
    } else if s.len() > 0 {
        assert(low[0] == ascii_lower(s[0]));
        assert(low.last() == ascii_lower(s.last()));
    }
}

/// However a hash is spelled, in upper case or lower case and with white space
/// around it or without, its interface is kept under one name; and that name is
/// kept under itself.
pub proof fn law_spelling_of_a_hash(a: Seq<char>, b: Seq<char>)
    requires
        vstd::utf8::is_ascii_chars(a),
        vstd::utf8::is_ascii_chars(b),
        same_but_case(trimmed(a), trimmed(b)),
    ensures
        cache_key(a) == cache_key(b),
        cache_key(cache_key(a)) == cache_key(a),
{
    lemma_trimmed_twice(a);
    lemma_trimmed_twice(b);
    let x = trimmed(a);
    let y = trimmed(b);
    assert forall|i: int| 0 <= i < x.len() implies lowered_ascii(x)[i] == lowered_ascii(y)[i] by {
        assert(ascii_lower(x[i]) == ascii_lower(y[i]));
    }
    assert(lowered_ascii(x) =~= lowered_ascii(y));
    let low = lowered_ascii(x);
    assert(vstd::utf8::is_ascii_chars(low)) by {
        assert forall|i: int| 0 <= i < low.len() implies 0 <= #[trigger] low[i] as nat && (
        low[i] as nat) < 128 by {
            assert(low[i] == ascii_lower(x[i]));
        }
    }
    lemma_trimmed_lowered(x);
    assert(lowered_ascii(low) =~= low);
}

} // verus!
