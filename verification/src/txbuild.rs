//! Building, simulating, assembling and signing the transaction that calls a
//! contract.

use vstd::prelude::*;

use crate::encoding::account_of;
use crate::encoding::contract_of;
use crate::encoding::parse_account;
use crate::encoding::parse_contract;
use crate::encoding::parse_seed;
use crate::encoding::parse_wire_text;
use crate::encoding::seed_of;
use crate::encoding::wire_bytes;
use crate::error::told;
use crate::error::Failure;
use crate::json::canonical;
use crate::json::json_text;
use crate::json::json_views;
use crate::json::Json;
use crate::json::JsonView;
use crate::render::json_of;
use crate::render::scval_to_json;
use crate::rpc::first_in;
use crate::rpc::list_in;
use crate::rpc::str_field_of;
use crate::rpc::ValueExt;
use crate::text::cat2;
use crate::text::cat3;
use crate::text::int_value;
use crate::text::parse_signed;
use crate::transaction::operation_views;
use crate::transaction::signature_views;
use crate::transaction::Call;
use crate::transaction::CallView;
use crate::transaction::Envelope;
use crate::transaction::EnvelopeView;
use crate::transaction::HostWork;
use crate::transaction::HostWorkView;
use crate::transaction::Invocation;
use crate::transaction::InvocationView;
use crate::transaction::SignedTx;
use crate::transaction::SignedTxView;
use crate::transaction::Source;
use crate::transaction::SourceView;
use crate::transaction::Tx;
use crate::transaction::TxOperation;
use crate::transaction::TxOperationView;
use crate::transaction::TxSignature;
use crate::transaction::TxSignatureView;
use crate::transaction::TxView;
use crate::value::val_views;
use crate::value::Address;
use crate::value::AddressView;
use crate::value::Val;
use crate::value::ValView;
use crate::xdr::read_resources;
use crate::xdr::resources_of_base64;
use crate::xdr::val_of_base64;
use crate::xdr_tx::auth_of_base64;
use crate::xdr_tx::debug_ledger_entry;
use crate::xdr_tx::encode_lookup_key;
use crate::xdr_tx::envelope_text;
use crate::xdr_tx::hash_tx;
use crate::xdr_tx::ledger_entry_debug;
use crate::xdr_tx::ledger_entry_held;
use crate::xdr_tx::ledger_entry_of_base64;
use crate::xdr_tx::lookup_key_base64;
use crate::xdr_tx::meta_of_base64;
use crate::xdr_tx::public_key;
use crate::xdr_tx::public_key_of;
use crate::xdr_tx::read_auth;
use crate::xdr_tx::read_ledger_entry;
use crate::xdr_tx::read_meta;
use crate::xdr_tx::sign_message;
use crate::xdr_tx::signature_of;
use crate::xdr_tx::split_ledger_entry;
use crate::xdr_tx::tx_hash;
use crate::xdr_tx::LedgerEntry;
use crate::xdr_tx::LedgerEntryView;
use crate::xdr_tx::LookupKey;
use crate::xdr_tx::LookupKeyView;
use crate::xdr_tx::Meta;
use crate::xdr_tx::MetaView;

verus! {

/// The part of the fee that is paid on top of what the simulation says the
/// resources cost. It is small and fixed; a caller that congestion prices out can
/// submit again.
pub const INCLUSION_FEE_STROOPS: u32 = 100;

/// The base64 key of a source account's ledger entry, or why there is none.
pub open spec fn account_key(source_account: Seq<char>) -> Result<Seq<char>, Seq<char>> {
    match account_of(source_account) {
        None => Err(
            "invalid source_account `"@ + source_account + "`: expected a G... strkey"@,
        ),
        Some(key) => Ok(lookup_key_base64(LookupKeyView::Account(key))),
    }
}

/// The base64 key to ask the network for a source account with.
pub fn source_account_key(source_account: &str) -> (r: Result<String, Failure>)
    ensures
        told(r) == account_key(source_account@),
{
    match parse_account(source_account) {
        None => Err(
            Failure::new(
                cat3("invalid source_account `", source_account, "`: expected a G... strkey"),
            ),
        ),
        Some(key) => match encode_lookup_key(&LookupKey::Account(key)) {
            Ok(s) => Ok(s),
            Err(e) => Err(Failure::new(e)),
        },
    }
}

/// The sequence number of an account in the network's reply to the question for
/// it, or why there is none.
pub open spec fn account_sequence(resp: JsonView, source_account: Seq<char>) -> Result<
    int,
    Seq<char>,
> {
    let entries = list_in(resp, "entries"@);
    if entries.len() == 0 {
        Err(
            "source account `"@ + source_account
                + "` was not found on-chain (has it been funded?)"@,
        )
    } else {
        match str_field_of(entries[0], "xdr"@) {
            Err(e) => Err(e),
            Ok(xdr) => match ledger_entry_of_base64(xdr) {
                None => Err("failed decoding Account ledger entry"@),
                Some(d) => match ledger_entry_held(d) {
                    LedgerEntryView::Account(n) => Ok(n as int),
                    _ => Err(
                        "expected an Account ledger entry, got "@ + ledger_entry_debug(d),
                    ),
                },
            },
        }
    }
}

/// The sequence number after one, if there is one.
pub fn sequence_after(n: i64) -> (r: Option<i64>)
    ensures
        match r {
            Some(m) => m == n + 1,
            None => n == i64::MAX,
        },
{
    if n < i64::MAX {
        Some(n + 1)
    } else {
        None
    }
}

/// The sequence number for an account's next transaction, in the network's reply
/// to the question for the account; nothing for an account whose sequence number
/// is the last one of 64 bits.
pub fn fetch_next_sequence_number(resp: &Json, source_account: &str) -> (r: Result<
    Option<i64>,
    Failure,
>)
    ensures
        match r {
            Ok(Some(n)) => account_sequence(resp@, source_account@) == Ok::<int, Seq<char>>(n - 1),
            Ok(None) => account_sequence(resp@, source_account@) == Ok::<int, Seq<char>>(
                i64::MAX as int,
            ),
            Err(e) => account_sequence(resp@, source_account@) == Err::<int, Seq<char>>(e@),
        },
{
    let entry = match first_in(resp, "entries") {
        Some(entry) => entry,
        None => return Err(
            Failure::new(
                cat3(
                    "source account `",
                    source_account,
                    "` was not found on-chain (has it been funded?)",
                ),
            ),
        ),
    };
    let xdr = match entry.as_str_field("xdr") {
        Ok(xdr) => xdr,
        Err(e) => return Err(e),
    };
    match read_ledger_entry(xdr) {
        None => Err(Failure::of("failed decoding Account ledger entry")),
        Some(d) => match split_ledger_entry(&d) {
            LedgerEntry::Account(n) => Ok(sequence_after(n)),
            _ => Err(
                Failure::new(
                    cat2(
                        "expected an Account ledger entry, got ",
                        debug_ledger_entry(&d).as_str(),
                    ),
                ),
            ),
        },
    }
}

/// The unsigned transaction in which an account calls a function of a contract.
pub open spec fn call_tx(
    account: Seq<u8>,
    seq_num: i64,
    contract: Seq<u8>,
    function_name: Seq<u8>,
    args: Seq<ValView>,
) -> TxView {
    TxView {
        source_account: SourceView::Ed25519(account),
        fee: INCLUSION_FEE_STROOPS,
        seq_num,
        cond: None,
        memo: None,
        operations: seq![
            TxOperationView::Invoke(
                InvocationView {
                    source: None,
                    work: HostWorkView::Call(
                        CallView {
                            contract: AddressView::Contract(contract),
                            function_name,
                            args,
                        },
                    ),
                    auth: Seq::empty(),
                },
            ),
        ],
        soroban_data: None,
    }
}

/// The unsigned envelope in which an account calls a function of a contract.
pub open spec fn call_envelope_view(
    account: Seq<u8>,
    seq_num: i64,
    contract: Seq<u8>,
    function_name: Seq<u8>,
    args: Seq<ValView>,
) -> EnvelopeView {
    EnvelopeView::Tx(
        SignedTxView {
            tx: call_tx(account, seq_num, contract, function_name, args),
            signatures: Seq::empty(),
        },
    )
}

/// Makes the unsigned envelope in which an account calls a function of a contract.
pub fn call_envelope(
    account: [u8; 32],
    next_seq: i64,
    contract: [u8; 32],
    name: Vec<u8>,
    args: Vec<Val>,
) -> (r: Envelope)
    ensures
        r@ == call_envelope_view(account@, next_seq, contract@, name@, val_views(args@)),
{
    let ghost shown = call_tx(account@, next_seq, contract@, name@, val_views(args@));
    let invocation = Invocation {
        source: None,
        work: HostWork::Call(
            Call { contract: Address::Contract(contract), function_name: name, args },
        ),
        auth: Vec::new(),
    };
    let tx = Tx {
        source_account: Source::Ed25519(account),
        fee: INCLUSION_FEE_STROOPS,
        seq_num: next_seq,
        cond: None,
        memo: None,
        operations: vec![TxOperation::Invoke(invocation)],
        soroban_data: None,
    };
    proof {
        assert(invocation@ =~= shown.operations[0]->Invoke_0);
        assert(operation_views(tx.operations@) =~= shown.operations);
        assert(tx@ =~= shown);
    }
    let signatures: Vec<TxSignature> = Vec::new();
    assert(signature_views(signatures@) =~= Seq::empty());
    Envelope::Tx(SignedTx { tx, signatures })
}

/// The unsigned envelope in which an account calls a function of a contract, or
/// why there is none.
pub open spec fn unsigned_call(
    source_account: Seq<char>,
    next_seq: i64,
    contract_id: Seq<char>,
    function_name: Seq<char>,
    args: Seq<ValView>,
) -> Result<EnvelopeView, Seq<char>> {
    match account_of(source_account) {
        None => Err(
            "invalid source_account `"@ + source_account + "`: expected a G... strkey"@,
        ),
        Some(account) => match contract_of(contract_id) {
            None => Err("invalid contract_id `"@ + contract_id + "`: expected a C... strkey"@),
            Some(contract) => match wire_bytes(function_name) {
                None => Err(
                    "function name `"@ + function_name + "` is invalid or too long"@,
                ),
                Some(name) => if name.len() > 32 {
                    Err("function name `"@ + function_name + "` is invalid or too long"@)
                } else if args.len() > u32::MAX {
                    Err("too many arguments"@)
                } else {
                    Ok(call_envelope_view(account, next_seq, contract, name, args))
                },
            },
        },
    }
}

/// Builds the unsigned transaction in which an account calls a function of a
/// contract.
pub fn build_unsigned_invoke_tx(
    source_account: &str,
    next_seq: i64,
    contract_id: &str,
    function_name: &str,
    args: Vec<Val>,
) -> (r: Result<Envelope, Failure>)
    ensures
        told(r) == unsigned_call(
            source_account@,
            next_seq,
            contract_id@,
            function_name@,
            val_views(args@),
        ),
{
    let account = match parse_account(source_account) {
        Some(account) => account,
        None => return Err(
            Failure::new(
                cat3("invalid source_account `", source_account, "`: expected a G... strkey"),
            ),
        ),
    };
    let contract = match parse_contract(contract_id) {
        Some(contract) => contract,
        None => return Err(
            Failure::new(
                cat3("invalid contract_id `", contract_id, "`: expected a C... strkey"),
            ),
        ),
    };
    let name = match parse_wire_text(function_name) {
        Some(name) => name,
        None => return Err(
            Failure::new(cat3("function name `", function_name, "` is invalid or too long")),
        ),
    };
    if name.len() > 32 {
        return Err(
            Failure::new(cat3("function name `", function_name, "` is invalid or too long")),
        );
    }
    if args.len() as u64 > u32::MAX as u64 {
        return Err(Failure::of("too many arguments"));
    }
    Ok(call_envelope(account, next_seq, contract, name, args))
}

/// What a simulation of a call says.
#[derive(Debug, PartialEq)]
pub struct SimulationOutcome {
    pub soroban_data: stellar_xdr::SorobanTransactionData,
    pub min_resource_fee: i64,
    pub result_json: Option<Json>,
    pub auth_b64: Vec<String>,
    pub raw: Json,
}

#[verifier::ext_equal]
pub struct SimulationView {
    pub soroban_data: stellar_xdr::SorobanTransactionData,
    pub min_resource_fee: i64,
    pub result_json: Option<JsonView>,
    pub auth_b64: Seq<Seq<char>>,
    pub raw: JsonView,
}

pub open spec fn text_views(items: Seq<String>) -> Seq<Seq<char>> {
    Seq::new(items.len(), |i: int| items[i]@)
}

pub open spec fn optional_view(j: Option<Json>) -> Option<JsonView> {
    match j {
        Some(j) => Some(j@),
        None => None,
    }
}

impl View for SimulationOutcome {
    type V = SimulationView;

    open spec fn view(&self) -> SimulationView {
        SimulationView {
            soroban_data: self.soroban_data,
            min_resource_fee: self.min_resource_fee,
            result_json: optional_view(self.result_json),
            auth_b64: text_views(self.auth_b64@),
            raw: self.raw@,
        }
    }
}

/// The first `n` of the given values that are texts, in their order.
pub open spec fn texts_among(items: Seq<JsonView>, n: int) -> Seq<Seq<char>>
    decreases n,
{
    if n <= 0 {
        Seq::empty()
    } else {
        match items[n - 1].str_value() {
            Some(s) => texts_among(items, n - 1).push(s),
            None => texts_among(items, n - 1),
        }
    }
}

/// The first of a reply's results, if there is one.
pub open spec fn first_result(resp: JsonView) -> Option<JsonView> {
    let results = list_in(resp, "results"@);
    if results.len() > 0 {
        Some(results[0])
    } else {
        None
    }
}

/// The text in a field of an optional value, if there is one.
pub open spec fn text_at(j: Option<JsonView>, name: Seq<char>) -> Option<Seq<char>> {
    match j {
        None => None,
        Some(j) => match j.at_key(name) {
            None => None,
            Some(v) => v.str_value(),
        },
    }
}

/// The return value in a simulation's reply as JSON, if it has one, or why it
/// cannot be read.
pub open spec fn simulated_value(resp: JsonView) -> Result<Option<JsonView>, Seq<char>> {
    match text_at(first_result(resp), "xdr"@) {
        None => Ok(None),
        Some(xdr) => match val_of_base64(xdr) {
            None => Err("failed decoding simulated return value"@),
            Some(v) => Ok(Some(json_of(v))),
        },
    }
}

/// The authorizations in a simulation's reply.
pub open spec fn simulated_auth(resp: JsonView) -> Seq<Seq<char>> {
    match first_result(resp) {
        None => Seq::empty(),
        Some(first) => {
            let items = list_in(first, "auth"@);
            texts_among(items, items.len() as int)
        },
    }
}

/// The fee for the resources in a simulation's reply, or why there is none.
pub open spec fn fee_in(resp: JsonView) -> Result<int, Seq<char>> {
    match str_field_of(resp, "minResourceFee"@) {
        Err(e) => Err(e),
        Ok(fee) => match int_value(fee, i64::MIN as int, i64::MAX as int) {
            Err(_) => Err("minResourceFee was not a valid integer"@),
            Ok(n) => Ok(n),
        },
    }
}

/// Reads the fee for the resources out of a simulation's reply.
pub fn resource_fee(resp: &Json) -> (r: Result<i64, Failure>)
    ensures
        match r {
            Ok(n) => fee_in(resp@) == Ok::<int, Seq<char>>(n as int),
            Err(e) => fee_in(resp@) == Err::<int, Seq<char>>(e@),
        },
{
    let fee = match resp.as_str_field("minResourceFee") {
        Ok(fee) => fee,
        Err(e) => return Err(e),
    };
    match parse_signed(fee, i64::MIN as i128, i64::MAX as i128) {
        Ok(n) => Ok(n as i64),
        Err(_) => Err(Failure::of("minResourceFee was not a valid integer")),
    }
}

/// What a simulation's reply says, or why it cannot be used.
pub open spec fn simulation_of(resp: JsonView) -> Result<SimulationView, Seq<char>> {
    match resp.at_key("error"@) {
        Some(err) => Err(
            "simulation failed: "@ + match err.str_value() {
                Some(s) => s,
                None => json_text(canonical(err)),
            },
        ),
        None => if resp.at_key("restorePreamble"@) is Some {
            Err(
                "this call requires restoring archived contract state before it can run; automatic restore is not implemented by this proxy yet"@,
            )
        } else {
            match str_field_of(resp, "transactionData"@) {
                Err(e) => Err(e),
                Ok(data) => match resources_of_base64(data) {
                    None => Err("failed decoding simulated SorobanTransactionData"@),
                    Some(soroban_data) => match fee_in(resp) {
                        Err(e) => Err(e),
                        Ok(n) => match simulated_value(resp) {
                            Err(e) => Err(e),
                            Ok(result_json) => Ok(
                                SimulationView {
                                    soroban_data,
                                    min_resource_fee: n as i64,
                                    result_json,
                                    auth_b64: simulated_auth(resp),
                                    raw: resp,
                                },
                            ),
                        },
                    },
                },
            }
        },
    }
}

fn text_in<'a>(j: Option<&'a Json>, name: &str) -> (r: Option<&'a str>)
    ensures
        match r {
            Some(s) => j is Some && text_at(Some(j->0@), name@) == Some(s@),
            None => j matches Some(v) ==> text_at(Some(v@), name@) is None,
        },
{
    match j {
        None => None,
        Some(j) => match j.get(name) {
            None => None,
            Some(v) => v.as_str(),
        },
    }
}

/// Reads the return value out of a simulation's reply.
fn read_simulated_value(resp: &Json) -> (r: Result<Option<Json>, Failure>)
    ensures
        match r {
            Ok(v) => simulated_value(resp@) == Ok::<Option<JsonView>, Seq<char>>(optional_view(v)),
            Err(e) => simulated_value(resp@) == Err::<Option<JsonView>, Seq<char>>(e@),
        },
{
    match text_in(first_in(resp, "results"), "xdr") {
        None => Ok(None),
        Some(xdr) => match Val::from_base64(xdr) {
            None => Err(Failure::of("failed decoding simulated return value")),
            Some(v) => Ok(Some(scval_to_json(&v))),
        },
    }
}

/// Reads the authorizations out of a simulation's reply.
fn read_simulated_auth(resp: &Json) -> (r: Vec<String>)
    ensures
        text_views(r@) == simulated_auth(resp@),
{
    let mut out: Vec<String> = Vec::new();
    assert(text_views(out@) =~= Seq::empty());
    let first = match first_in(resp, "results") {
        Some(first) => first,
        None => return out,
    };
    let items = match first.get("auth") {
        Some(Json::Array(items)) => items,
        _ => return out,
    };
    let ghost shown = json_views(items@);
    let mut i: usize = 0;
    while i < items.len()
        invariant
            i <= items@.len(),
            shown == json_views(items@),
            text_views(out@) == texts_among(shown, i as int),
        decreases items@.len() - i,
    {
        assert(shown[i as int] == items@[i as int]@);
        if let Some(s) = items[i].as_str() {
            let ghost before = text_views(out@);
            out.push(s.to_owned());
            assert(text_views(out@) =~= before.push(s@));
        }
        i += 1;
    }
    out
}

/// Reads a simulation's reply.
pub fn parse_simulation(resp: &Json) -> (r: Result<SimulationOutcome, Failure>)
    ensures
        told(r) == simulation_of(resp@),
{
    if let Some(err) = resp.get("error") {
        let msg = match err.as_str() {
            Some(s) => s.to_owned(),
            None => err.to_text(),
        };
        return Err(Failure::new(cat2("simulation failed: ", msg.as_str())));
    }
    if resp.get("restorePreamble").is_some() {
        return Err(
            Failure::of(
                "this call requires restoring archived contract state before it can run; automatic restore is not implemented by this proxy yet",
            ),
        );
    }
    let data = match resp.as_str_field("transactionData") {
        Ok(data) => data,
        Err(e) => return Err(e),
    };
    let soroban_data = match read_resources(data) {
        Some(d) => d,
        None => return Err(Failure::of("failed decoding simulated SorobanTransactionData")),
    };
    let min_resource_fee: i64 = match resource_fee(resp) {
        Ok(n) => n,
        Err(e) => return Err(e),
    };
    let result_json = match read_simulated_value(resp) {
        Ok(v) => v,
        Err(e) => return Err(e),
    };
    Ok(
        SimulationOutcome {
            soroban_data,
            min_resource_fee,
            result_json,
            auth_b64: read_simulated_auth(resp),
            raw: resp.copy(),
        },
    )
}

/// The first `n` of the given texts as authorizations, if all of them are.
pub open spec fn auths_upto(items: Seq<Seq<char>>, n: int) -> Option<
    Seq<stellar_xdr::SorobanAuthorizationEntry>,
>
    decreases n,
{
    if n <= 0 {
        Some(Seq::empty())
    } else {
        match auths_upto(items, n - 1) {
            None => None,
            Some(auths) => match auth_of_base64(items[n - 1]) {
                None => None,
                Some(auth) => Some(auths.push(auth)),
            },
        }
    }
}

proof fn lemma_auths_fail(items: Seq<Seq<char>>, k: int, n: int)
    requires
        0 <= k <= n,
        auths_upto(items, k) is None,
    ensures
        auths_upto(items, n) is None,
    decreases n,
{
    if k < n {
        lemma_auths_fail(items, k, n - 1);
    }
}

/// The operations with the authorizations given to the first, if it is an
/// invocation.
pub open spec fn with_auth(
    ops: Seq<TxOperationView>,
    auth: Seq<stellar_xdr::SorobanAuthorizationEntry>,
) -> Result<Seq<TxOperationView>, Seq<char>> {
    if ops.len() == 0 {
        Err("built transaction unexpectedly has no operations"@)
    } else {
        match ops[0] {
            TxOperationView::Invoke(i) => if auth.len() > u32::MAX {
                Err("too many auth entries"@)
            } else {
                Ok(ops.update(0, TxOperationView::Invoke(InvocationView { auth, ..i })))
            },
            TxOperationView::Other(_) => Ok(ops),
        }
    }
}

/// The operations with the authorizations of a simulation.
pub open spec fn authorized(ops: Seq<TxOperationView>, auth_b64: Seq<Seq<char>>) -> Result<
    Seq<TxOperationView>,
    Seq<char>,
> {
    if auth_b64.len() == 0 {
        Ok(ops)
    } else {
        match auths_upto(auth_b64, auth_b64.len() as int) {
            None => Err("failed decoding simulated authorization entry"@),
            Some(auth) => with_auth(ops, auth),
        }
    }
}

/// An envelope with the fee, the resources and the authorizations of a
/// simulation, or why it cannot have them.
pub open spec fn assembled(e: EnvelopeView, sim: SimulationView) -> Result<EnvelopeView, Seq<char>> {
    match e {
        EnvelopeView::Other(_) => Err("expected a v1 transaction envelope"@),
        EnvelopeView::Tx(s) => if sim.min_resource_fee < 0 || sim.min_resource_fee > u32::MAX {
            Err("simulated resource fee out of range"@)
        } else if sim.min_resource_fee + INCLUSION_FEE_STROOPS > u32::MAX {
            Err("computed fee overflowed"@)
        } else {
            match authorized(s.tx.operations, sim.auth_b64) {
                Err(e) => Err(e),
                Ok(operations) => Ok(
                    EnvelopeView::Tx(
                        SignedTxView {
                            tx: TxView {
                                fee: (sim.min_resource_fee + INCLUSION_FEE_STROOPS) as u32,
                                soroban_data: Some(sim.soroban_data),
                                operations,
                                ..s.tx
                            },
                            ..s
                        },
                    ),
                ),
            }
        },
    }
}

fn read_auths(items: &Vec<String>) -> (r: Option<Vec<stellar_xdr::SorobanAuthorizationEntry>>)
    ensures
        match r {
            Some(auths) => auths_upto(text_views(items@), items@.len() as int) == Some(auths@),
            None => auths_upto(text_views(items@), items@.len() as int) is None,
        },
{
    let mut out: Vec<stellar_xdr::SorobanAuthorizationEntry> = Vec::new();
    assert(out@ =~= Seq::empty());
    let mut i: usize = 0;
    while i < items.len()
        invariant
            i <= items@.len(),
            auths_upto(text_views(items@), i as int) == Some(out@),
        decreases items@.len() - i,
    {
        assert(text_views(items@)[i as int] == items@[i as int]@);
        match read_auth(items[i].as_str()) {
            Some(auth) => out.push(auth),
            None => {
                proof {
                    lemma_auths_fail(text_views(items@), i + 1, items@.len() as int);
                }
                return None;
            },
        }
        i += 1;
    }
    Some(out)
}

/// Gives the operations the authorizations of a simulation.
fn authorize(operations: Vec<TxOperation>, auth_b64: &Vec<String>) -> (r: Result<
    Vec<TxOperation>,
    Failure,
>)
    ensures
        match r {
            Ok(ops) => authorized(operation_views(operations@), text_views(auth_b64@)) == Ok::<
                Seq<TxOperationView>,
                Seq<char>,
            >(operation_views(ops@)),
            Err(e) => authorized(operation_views(operations@), text_views(auth_b64@)) == Err::<
                Seq<TxOperationView>,
                Seq<char>,
            >(e@),
        },
{
    if auth_b64.len() == 0 {
        return Ok(operations);
    }
    let auth = match read_auths(auth_b64) {
        Some(auth) => auth,
        None => return Err(Failure::of("failed decoding simulated authorization entry")),
    };
    give_auth(operations, auth)
}

/// Gives the first operation authorizations, if it is an invocation.
pub fn give_auth(
    operations: Vec<TxOperation>,
    auth: Vec<stellar_xdr::SorobanAuthorizationEntry>,
) -> (r: Result<Vec<TxOperation>, Failure>)
    ensures
        match r {
            Ok(ops) => with_auth(operation_views(operations@), auth@) == Ok::<
                Seq<TxOperationView>,
                Seq<char>,
            >(operation_views(ops@)),
            Err(e) => with_auth(operation_views(operations@), auth@) == Err::<
                Seq<TxOperationView>,
                Seq<char>,
            >(e@),
        },
{
    if operations.len() == 0 {
        return Err(Failure::of("built transaction unexpectedly has no operations"));
    }
    let ghost before = operation_views(operations@);
    let mut ops = operations;
    assert(before[0] == ops@[0]@);
    let first = ops.remove(0);
    match first {
        TxOperation::Invoke(i) => {
            if auth.len() as u64 > u32::MAX as u64 {
                return Err(Failure::of("too many auth entries"));
            }
            let changed = Invocation { source: i.source, work: i.work, auth };
            ops.insert(0, TxOperation::Invoke(changed));
            assert(operation_views(ops@) =~= before.update(
                0,
                TxOperationView::Invoke(InvocationView { auth: auth@, ..i@ }),
            ));
            Ok(ops)
        },
        TxOperation::Other(o) => {
            ops.insert(0, TxOperation::Other(o));
            assert(operation_views(ops@) =~= before);
            Ok(ops)
        },
    }
}

/// Gives an unsigned transaction the fee, the resources and the authorizations
/// that its simulation found it to need.
pub fn assemble_transaction(envelope: Envelope, sim: &SimulationOutcome) -> (r: Result<
    Envelope,
    Failure,
>)
    ensures
        told(r) == assembled(envelope@, sim@),
{
    let signed = match envelope {
        Envelope::Tx(signed) => signed,
        Envelope::Other(_) => return Err(Failure::of("expected a v1 transaction envelope")),
    };
    if sim.min_resource_fee < 0 || sim.min_resource_fee > u32::MAX as i64 {
        return Err(Failure::of("simulated resource fee out of range"));
    }
    let fee: u32 = match (sim.min_resource_fee as u32).checked_add(INCLUSION_FEE_STROOPS) {
        Some(fee) => fee,
        None => return Err(Failure::of("computed fee overflowed")),
    };
    let tx = signed.tx;
    let operations = match authorize(tx.operations, &sim.auth_b64) {
        Ok(ops) => ops,
        Err(e) => return Err(e),
    };
    Ok(
        Envelope::Tx(
            SignedTx {
                tx: Tx {
                    source_account: tx.source_account,
                    fee,
                    seq_num: tx.seq_num,
                    cond: tx.cond,
                    memo: tx.memo,
                    operations,
                    soroban_data: Some(sim.soroban_data.clone()),
                },
                signatures: signed.signatures,
            },
        ),
    )
}

/// A signature with the last four bytes of a public key as the hint at it.
pub fn signature_by(key: &[u8; 32], raw: &[u8; 64]) -> (r: TxSignature)
    ensures
        r@.hint == key@.subrange(28, 32),
        r@.signature == raw@,
{
    let hint: [u8; 4] = [key[28], key[29], key[30], key[31]];
    let mut signature: Vec<u8> = Vec::new();
    let mut i: usize = 0;
    while i < 64
        invariant
            i <= 64,
            raw@.len() == 64,
            signature@ == raw@.take(i as int),
        decreases 64 - i,
    {
        signature.push(raw[i]);
        assert(raw@.take(i + 1) =~= raw@.take(i as int).push(raw@[i as int]));
        i += 1;
    }
    assert(raw@.take(64) =~= raw@);
    assert(hint@ =~= key@.subrange(28, 32));
    TxSignature { hint, signature }
}

/// The signature of a hash by the key of a seed, with the last four bytes of the
/// public key as the hint at it.
pub open spec fn tx_signature(seed: Seq<u8>, hash: Seq<u8>) -> TxSignatureView {
    TxSignatureView {
        hint: public_key_of(seed).subrange(28, 32),
        signature: signature_of(seed, hash),
    }
}

/// An envelope signed for the network of a passphrase with a secret key, or why
/// it cannot be.
pub open spec fn signed_envelope(
    e: EnvelopeView,
    passphrase: Seq<char>,
    secret_key: Seq<char>,
) -> Result<EnvelopeView, Seq<char>> {
    match e {
        EnvelopeView::Other(_) => Err("expected a v1 transaction envelope"@),
        EnvelopeView::Tx(s) => match seed_of(secret_key) {
            None => Err("invalid secret_key: expected an S... strkey"@),
            Some(seed) => match tx_hash(s.tx, passphrase) {
                None => Err("failed encoding transaction signature payload"@),
                Some(hash) => Ok(
                    EnvelopeView::Tx(
                        SignedTxView { signatures: seq![tx_signature(seed, hash)], ..s },
                    ),
                ),
            },
        },
    }
}

/// Signs an envelope's transaction. The signature takes the place of any that it
/// has.
pub fn sign_transaction(envelope: Envelope, network_passphrase: &str, secret_key: &str) -> (r:
    Result<Envelope, Failure>)
    ensures
        told(r) == signed_envelope(envelope@, network_passphrase@, secret_key@),
{
    let signed = match envelope {
        Envelope::Tx(signed) => signed,
        Envelope::Other(_) => return Err(Failure::of("expected a v1 transaction envelope")),
    };
    let seed = match parse_seed(secret_key) {
        Some(seed) => seed,
        None => return Err(Failure::of("invalid secret_key: expected an S... strkey")),
    };
    let hash = match hash_tx(&signed.tx, network_passphrase) {
        Some(hash) => hash,
        None => return Err(Failure::of("failed encoding transaction signature payload")),
    };
    let raw = sign_message(&seed, hash.as_slice());
    let signatures = vec![signature_by(&public_key(&seed), &raw)];
    assert(signature_views(signatures@) =~= seq![tx_signature(seed@, hash@)]);
    Ok(Envelope::Tx(SignedTx { tx: signed.tx, signatures }))
}

/// The base64 text of an envelope, or the complaint that there is none.
pub open spec fn envelope_sent(e: EnvelopeView) -> Result<Seq<char>, Seq<char>> {
    match envelope_text(e) {
        Some(s) => Ok(s),
        None => Err("failed encoding transaction envelope"@),
    }
}

/// Encodes an envelope.
pub fn envelope_to_base64(envelope: &Envelope) -> (r: Result<String, Failure>)
    ensures
        told(r) == envelope_sent(envelope@),
{
    match envelope.to_base64() {
        Some(s) => Ok(s),
        None => Err(Failure::of("failed encoding transaction envelope")),
    }
}

/// The return value in a transaction's metadata, if there is one, or the complaint
/// that the metadata cannot be read.
pub open spec fn meta_value(result_meta_xdr_b64: Seq<char>) -> Result<Option<ValView>, Seq<char>> {
    match meta_of_base64(result_meta_xdr_b64) {
        None => Err("failed decoding resultMetaXdr"@),
        Some(MetaView::V3(v)) => Ok(v),
        Some(MetaView::V4(Some(v))) => Ok(v),
        Some(_) => Ok(None),
    }
}

/// Takes the contract's return value out of a transaction's metadata.
pub fn extract_return_value(result_meta_xdr_b64: &str) -> (r: Result<Option<Val>, Failure>)
    ensures
        match r {
            Ok(Some(v)) => meta_value(result_meta_xdr_b64@) == Ok::<Option<ValView>, Seq<char>>(
                Some(v@),
            ),
            Ok(None) => meta_value(result_meta_xdr_b64@) == Ok::<Option<ValView>, Seq<char>>(None),
            Err(e) => meta_value(result_meta_xdr_b64@) == Err::<Option<ValView>, Seq<char>>(e@),
        },
{
    match read_meta(result_meta_xdr_b64) {
        None => Err(Failure::of("failed decoding resultMetaXdr")),
        Some(meta) => Ok(value_in_meta(meta)),
    }
}

/// Takes the return value out of metadata.
pub fn value_in_meta(meta: Meta) -> (r: Option<Val>)
    ensures
        match meta.held() {
            MetaView::V3(v) => v == val_option_view(r),
            MetaView::V4(Some(v)) => v == val_option_view(r),
            _ => r is None,
        },
{
    match meta {
        Meta::V3(Some(v)) => Some(Val::from_xdr(v)),
        Meta::V4(Some(Some(v))) => Some(Val::from_xdr(v)),
        _ => None,
    }
}

pub open spec fn val_option_view(v: Option<Val>) -> Option<ValView> {
    match v {
        Some(v) => Some(v@),
        None => None,
    }
}

} // verus!
