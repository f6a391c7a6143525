//! What a call's transaction holds from the building to the signature, and what
//! assembling and signing leave as it was.

use vstd::prelude::*;

use vstd::utf8::encode_utf8;

use crate::encoding::account_of;
use crate::encoding::contract_of;
use crate::encoding::seed_of;
use crate::encoding::wire_bytes;
use crate::json::JsonView;
use crate::render::json_of;
use crate::text::int_value;
use crate::transaction::EnvelopeView;
use crate::transaction::HostWorkView;
use crate::transaction::InvocationView;
use crate::transaction::SignedTxView;
use crate::transaction::SourceView;
use crate::transaction::TxOperationView;
use crate::transaction::TxView;
use crate::txbuild::account_key;
use crate::txbuild::account_sequence;
use crate::txbuild::assembled;
use crate::txbuild::auths_upto;
use crate::txbuild::envelope_sent;
use crate::txbuild::meta_value;
use crate::txbuild::signed_envelope;
use crate::txbuild::simulation_of;
use crate::txbuild::texts_among;
use crate::txbuild::unsigned_call;
use crate::txbuild::SimulationView;
use crate::txbuild::INCLUSION_FEE_STROOPS;
use crate::value::AddressView;
use crate::value::ValView;
use crate::xdr::resources_of_base64;
use crate::xdr::val_of_base64;
use crate::xdr_tx::auth_of_base64;
use crate::xdr_tx::envelope_base64;
use crate::xdr_tx::ledger_entry_held;
use crate::xdr_tx::ledger_entry_of_base64;
use crate::xdr_tx::lookup_key_base64;
use crate::xdr_tx::meta_of_base64;
use crate::xdr_tx::payload_xdr;
use crate::xdr_tx::public_key_of;
use crate::xdr_tx::sha256_of;
use crate::xdr_tx::signature_of;
use crate::xdr_tx::tx_hash;
use crate::xdr_tx::xdr_call;
use crate::xdr_tx::xdr_envelope;
use crate::xdr_tx::xdr_invoke;
use crate::xdr_tx::xdr_transaction;
use crate::xdr_tx::LedgerEntryView;
use crate::xdr_tx::LookupKeyView;
use crate::xdr_tx::MetaView;

verus! {

/// A simulation that failed, and one by which archived state has to be restored
/// first, are refused.
pub proof fn law_failed_simulations_are_refused(resp: JsonView)
    requires
        resp.at_key("error"@) is Some || resp.at_key("restorePreamble"@) is Some,
    ensures
        simulation_of(resp) is Err,
{
}

/// An assembled transaction costs what the simulation says and the inclusion fee,
/// and has the resources that the simulation says. Of the rest only the
/// authorizations of the first operation can change.
pub proof fn law_assembly_changes_no_more(e: SignedTxView, sim: SimulationView, a: EnvelopeView)
    requires
        assembled(EnvelopeView::Tx(e), sim) == Ok::<EnvelopeView, Seq<char>>(a),
    ensures
        a matches EnvelopeView::Tx(s) && {
            &&& s.tx.fee == sim.min_resource_fee + INCLUSION_FEE_STROOPS
            &&& s.tx.soroban_data == Some(sim.soroban_data)
            &&& s.tx.source_account == e.tx.source_account
            &&& s.tx.seq_num == e.tx.seq_num
            &&& s.tx.cond == e.tx.cond
            &&& s.tx.memo == e.tx.memo
            &&& s.signatures == e.signatures
            &&& s.tx.operations.len() == e.tx.operations.len()
            &&& sim.auth_b64.len() == 0 ==> s.tx.operations == e.tx.operations
            &&& forall|i: int|
                1 <= i < e.tx.operations.len() ==> #[trigger] s.tx.operations[i]
                    == e.tx.operations[i]
            &&& e.tx.operations.len() > 0 ==> match (s.tx.operations[0], e.tx.operations[0]) {
                (TxOperationView::Invoke(x), TxOperationView::Invoke(y)) => x == (InvocationView {
                    auth: x.auth,
                    ..y
                }),
                (x, y) => x == y,
            }
        },
{
}

/// Signing needs the secret key of an account, changes nothing of the transaction,
/// and leaves it with one signature.
pub proof fn law_signing_changes_no_more(
    e: SignedTxView,
    passphrase: Seq<char>,
    secret_key: Seq<char>,
    signed: EnvelopeView,
)
    requires
        signed_envelope(EnvelopeView::Tx(e), passphrase, secret_key) == Ok::<
            EnvelopeView,
            Seq<char>,
        >(signed),
    ensures
        seed_of(secret_key) is Some,
        signed matches EnvelopeView::Tx(s) && s.tx == e.tx && s.signatures.len() == 1,
{
}

/// Signing again with the same key changes nothing.
pub proof fn law_signing_twice_is_signing_once(
    e: EnvelopeView,
    passphrase: Seq<char>,
    secret_key: Seq<char>,
    signed: EnvelopeView,
)
    requires
        signed_envelope(e, passphrase, secret_key) == Ok::<EnvelopeView, Seq<char>>(signed),
    ensures
        signed_envelope(signed, passphrase, secret_key) == Ok::<EnvelopeView, Seq<char>>(signed),
{
}

/// A transaction is the same however it was signed before.
pub proof fn law_signature_replaces_others(
    tx: TxView,
    a: Seq<crate::transaction::TxSignatureView>,
    b: Seq<crate::transaction::TxSignatureView>,
    passphrase: Seq<char>,
    secret_key: Seq<char>,
)
    ensures
        signed_envelope(
            EnvelopeView::Tx(SignedTxView { tx, signatures: a }),
            passphrase,
            secret_key,
        ) == signed_envelope(
            EnvelopeView::Tx(SignedTxView { tx, signatures: b }),
            passphrase,
            secret_key,
        ),
{
}

/// The operations on the wire are those of the transaction, one for one and in their
/// order, each with its own source, its work and its authorizations.
pub open spec fn are_on_the_wire(
    ops: Seq<TxOperationView>,
    wire: Seq<stellar_xdr::Operation>,
) -> bool {
    &&& wire.len() == ops.len()
    &&& forall|i: int|
        0 <= i < ops.len() ==> #[trigger] wire[i] == match ops[i] {
            TxOperationView::Invoke(op) => xdr_invoke(
                op.source,
                match op.work {
                    HostWorkView::Call(c) => xdr_call(c.contract, c.function_name, c.args),
                    HostWorkView::Other(h) => h,
                },
                op.auth,
            ),
            TxOperationView::Other(o) => o,
        }
}

/// The text that is sent is that of the envelope with all of its transaction and all
/// of its signatures. An envelope has one where it keeps to the limits of the wire
/// format and the encoding succeeds, and otherwise it is not sent.
pub proof fn law_whole_envelope_is_sent(s: SignedTxView, wire: Seq<stellar_xdr::Operation>)
    requires
        are_on_the_wire(s.tx.operations, wire),
    ensures
        ({
            let text = envelope_base64(
                xdr_envelope(xdr_transaction(s.tx, wire), s.signatures),
            );
            match envelope_sent(EnvelopeView::Tx(s)) {
                Ok(t) => EnvelopeView::Tx(s).fits() && text == Some(t),
                Err(_) => !EnvelopeView::Tx(s).fits() || text is None,
            }
        }),
{
    assert(crate::xdr_tx::operations_xdr(s.tx.operations) =~= wire);
}

/// A signed transaction is the transaction that was to be signed, resources and all,
/// with one signature. The signature is that of the hash of just this transaction on
/// the network of the passphrase, by the key of the seed, and its hint is the end of
/// the public key.
pub proof fn law_signature_is_of_the_transaction(
    e: EnvelopeView,
    passphrase: Seq<char>,
    secret_key: Seq<char>,
    seed: Seq<u8>,
    signed: EnvelopeView,
    wire: Seq<stellar_xdr::Operation>,
)
    requires
        seed_of(secret_key) == Some(seed),
        signed_envelope(e, passphrase, secret_key) == Ok::<EnvelopeView, Seq<char>>(signed),
        signed matches EnvelopeView::Tx(t) && are_on_the_wire(t.tx.operations, wire),
    ensures
        ({
            let t = signed->Tx_0;
            let payload = payload_xdr(
                sha256_of(encode_utf8(passphrase)),
                xdr_transaction(t.tx, wire),
            );
            &&& e matches EnvelopeView::Tx(s) && s.tx == t.tx
            &&& payload is Some
            &&& tx_hash(t.tx, passphrase) == Some(sha256_of(payload->0))
            &&& t.signatures.len() == 1
            &&& t.signatures[0].signature == signature_of(seed, sha256_of(payload->0))
            &&& t.signatures[0].hint == public_key_of(seed).subrange(28, 32)
        }),
{
    assert(crate::xdr_tx::operations_xdr(signed->Tx_0.tx.operations) =~= wire);
}

/// A transaction that keeps to the limits of the wire format and whose payload can be
/// encoded is signed with every secret key. Nothing else is signed.
pub proof fn law_what_is_signed(
    e: EnvelopeView,
    passphrase: Seq<char>,
    secret_key: Seq<char>,
    wire: Seq<stellar_xdr::Operation>,
)
    requires
        e matches EnvelopeView::Tx(s) ==> are_on_the_wire(s.tx.operations, wire),
    ensures
        signed_envelope(e, passphrase, secret_key) is Ok <==> match e {
            EnvelopeView::Tx(s) => seed_of(secret_key) is Some && s.tx.fits() && payload_xdr(
                sha256_of(encode_utf8(passphrase)),
                xdr_transaction(s.tx, wire),
            ) is Some,
            EnvelopeView::Other(_) => false,
        },
{
    if let EnvelopeView::Tx(s) = e {
        assert(crate::xdr_tx::operations_xdr(s.tx.operations) =~= wire);
    }
}

/// The authorizations that texts stand for are as many as the texts and in their
/// order; there are none where some text stands for none.
proof fn lemma_auths(items: Seq<Seq<char>>, n: int)
    requires
        0 <= n <= items.len(),
    ensures
        match auths_upto(items, n) {
            Some(auths) => auths.len() == n && forall|i: int|
                #![trigger auths[i]]
                #![trigger items[i]]
                0 <= i < n ==> auth_of_base64(items[i]) == Some(auths[i]),
            None => exists|i: int| 0 <= i < n && auth_of_base64(#[trigger] items[i]) is None,
        },
    decreases n,
{
    if n > 0 {
        lemma_auths(items, n - 1);
    }
}

/// An assembled invocation has all the authorizations of the simulation, each in its
/// place.
pub proof fn law_authorizations_are_those_of_the_simulation(
    e: SignedTxView,
    sim: SimulationView,
    a: EnvelopeView,
)
    requires
        assembled(EnvelopeView::Tx(e), sim) == Ok::<EnvelopeView, Seq<char>>(a),
        sim.auth_b64.len() > 0,
    ensures
        e.tx.operations.len() > 0,
        a is Tx,
        e.tx.operations[0] is Invoke ==> {
            let op = a->Tx_0.tx.operations[0];
            &&& op is Invoke
            &&& op->Invoke_0.auth.len() == sim.auth_b64.len()
            &&& forall|i: int|
                0 <= i < sim.auth_b64.len() ==> auth_of_base64(sim.auth_b64[i]) == Some(
                    #[trigger] op->Invoke_0.auth[i],
                )
        },
{
    lemma_auths(sim.auth_b64, sim.auth_b64.len() as int);
}

/// A transaction is assembled where its fee fits in 32 bits and the authorizations of
/// the simulation can be read and there is an operation to have them, and only there.
pub proof fn law_what_is_assembled(e: EnvelopeView, sim: SimulationView)
    ensures
        assembled(e, sim) is Ok <==> match e {
            EnvelopeView::Other(_) => false,
            EnvelopeView::Tx(s) => {
                &&& 0 <= sim.min_resource_fee
                &&& sim.min_resource_fee + 100 <= u32::MAX
                &&& sim.auth_b64.len() > 0 ==> {
                    &&& s.tx.operations.len() > 0
                    &&& s.tx.operations[0] is Invoke ==> sim.auth_b64.len() <= u32::MAX
                    &&& forall|i: int|
                        0 <= i < sim.auth_b64.len() ==> auth_of_base64(
                            #[trigger] sim.auth_b64[i],
                        ) is Some
                }
            },
        },
{
    lemma_auths(sim.auth_b64, sim.auth_b64.len() as int);
}

/// The transaction of a call is made by the account and pays the inclusion fee. It
/// has the sequence number, no precondition, no memo, no resources and no signature,
/// and one operation, which calls the function of the contract with the arguments in
/// their order and has no authorizations yet.
pub proof fn law_call_is_as_asked_for(
    source_account: Seq<char>,
    next_seq: i64,
    contract_id: Seq<char>,
    function_name: Seq<char>,
    args: Seq<ValView>,
    e: EnvelopeView,
)
    requires
        unsigned_call(source_account, next_seq, contract_id, function_name, args) == Ok::<
            EnvelopeView,
            Seq<char>,
        >(e),
    ensures
        e matches EnvelopeView::Tx(s) && {
            &&& s.signatures.len() == 0
            &&& s.tx.source_account matches SourceView::Ed25519(key) && account_of(source_account)
                == Some(key)
            &&& s.tx.fee == 100
            &&& s.tx.seq_num == next_seq
            &&& s.tx.cond is None
            &&& s.tx.memo is None
            &&& s.tx.soroban_data is None
            &&& s.tx.operations.len() == 1
            &&& s.tx.operations[0] matches TxOperationView::Invoke(op) && {
                &&& op.source is None
                &&& op.auth.len() == 0
                &&& op.work matches HostWorkView::Call(c) && {
                    &&& c.contract matches AddressView::Contract(id) && contract_of(contract_id)
                        == Some(id)
                    &&& wire_bytes(function_name) == Some(c.function_name)
                    &&& c.args == args
                }
            }
        },
{
}

/// A call can be built where the account and the contract have the strkeys, the name
/// can be a symbol and the arguments can be counted, and only there.
pub proof fn law_what_can_be_called(
    source_account: Seq<char>,
    next_seq: i64,
    contract_id: Seq<char>,
    function_name: Seq<char>,
    args: Seq<ValView>,
)
    ensures
        unsigned_call(source_account, next_seq, contract_id, function_name, args) is Ok <==> {
            &&& account_of(source_account) is Some
            &&& contract_of(contract_id) is Some
            &&& wire_bytes(function_name) matches Some(b) && b.len() <= 32
            &&& args.len() <= u32::MAX
        },
{
}

/// Whether a JSON value is a string.
pub open spec fn is_string() -> spec_fn(JsonView) -> bool {
    |j: JsonView| j is String
}

/// The texts among JSON values are what the strings among them hold.
proof fn lemma_texts(items: Seq<JsonView>, n: int)
    requires
        0 <= n <= items.len(),
    ensures
        ({
            let texts = texts_among(items, n);
            let strings = items.take(n).filter(is_string());
            texts.len() == strings.len() && forall|i: int|
                0 <= i < texts.len() ==> strings[i] == JsonView::String(#[trigger] texts[i])
        }),
    decreases n,
{
    reveal(Seq::filter);
    if n <= 0 {
        assert(items.take(n) =~= Seq::empty());
    } else {
        lemma_texts(items, n - 1);
        assert(items.take(n).drop_last() =~= items.take(n - 1));
        assert(items.take(n).last() == items[n - 1]);
    }
}

/// What is taken out of a simulation's reply: the resources and the fee that it says,
/// the first result as JSON where there is one, the strings among that result's
/// authorizations in their order, and the reply itself.
pub proof fn law_simulation_is_what_the_reply_says(resp: JsonView, sim: SimulationView)
    requires
        simulation_of(resp) == Ok::<SimulationView, Seq<char>>(sim),
    ensures
        resp.at_key("transactionData"@) matches Some(JsonView::String(data))
            && resources_of_base64(data) == Some(sim.soroban_data),
        resp.at_key("minResourceFee"@) matches Some(JsonView::String(fee)) && int_value(
            fee,
            i64::MIN as int,
            i64::MAX as int,
        ) == Ok::<int, crate::text::IntError>(sim.min_resource_fee as int),
        sim.raw == resp,
        match resp.at_key("results"@) {
            Some(JsonView::Array(results)) if results.len() > 0 => {
                &&& match results[0].at_key("xdr"@) {
                    Some(JsonView::String(xdr)) => match val_of_base64(xdr) {
                        Some(v) => sim.result_json == Some(json_of(v)),
                        None => false,
                    },
                    _ => sim.result_json is None,
                }
                &&& match results[0].at_key("auth"@) {
                    Some(JsonView::Array(items)) => {
                        let strings = items.filter(is_string());
                        sim.auth_b64.len() == strings.len() && forall|i: int|
                            0 <= i < strings.len() ==> strings[i] == JsonView::String(
                                #[trigger] sim.auth_b64[i],
                            )
                    },
                    _ => sim.auth_b64.len() == 0,
                }
            },
            _ => sim.result_json is None && sim.auth_b64.len() == 0,
        },
{
    let data = resp.at_key("transactionData"@);
    assert(data is Some && data->0 is String);
    let fee = resp.at_key("minResourceFee"@);
    assert(fee is Some && fee->0 is String);
    if let Some(JsonView::Array(results)) = resp.at_key("results"@) {
        if results.len() > 0 {
            if let Some(JsonView::Array(items)) = results[0].at_key("auth"@) {
                lemma_texts(items, items.len() as int);
                assert(items.take(items.len() as int) =~= items);
            }
        }
    }
}

/// A simulation that neither failed nor needs anything restored, and that says its
/// resources, its fee, and its result where it has one, is taken.
pub proof fn law_good_simulations_are_taken(resp: JsonView, data: Seq<char>, fee: Seq<char>)
    requires
        resp.at_key("error"@) is None,
        resp.at_key("restorePreamble"@) is None,
        resp.at_key("transactionData"@) == Some(JsonView::String(data)),
        resources_of_base64(data) is Some,
        resp.at_key("minResourceFee"@) == Some(JsonView::String(fee)),
        int_value(fee, i64::MIN as int, i64::MAX as int) is Ok,
        match resp.at_key("results"@) {
            Some(JsonView::Array(results)) if results.len() > 0 => match results[0].at_key("xdr"@) {
                Some(JsonView::String(xdr)) => val_of_base64(xdr) is Some,
                _ => true,
            },
            _ => true,
        },
    ensures
        simulation_of(resp) is Ok,
{
}

/// The network is asked for the entry of the account itself; a text that is no strkey
/// of an account is refused.
pub proof fn law_account_is_asked_for(source_account: Seq<char>)
    ensures
        match account_of(source_account) {
            Some(key) => account_key(source_account) == Ok::<Seq<char>, Seq<char>>(
                lookup_key_base64(LookupKeyView::Account(key)),
            ),
            None => account_key(source_account) is Err,
        },
{
}

/// The sequence number is that of the account in the first entry of the reply; a
/// reply whose first entry is no account has none.
pub proof fn law_sequence_is_that_of_the_account(resp: JsonView, source_account: Seq<char>)
    ensures
        match resp.at_key("entries"@) {
            Some(JsonView::Array(entries)) => if entries.len() == 0 {
                account_sequence(resp, source_account) is Err
            } else {
                match entries[0].at_key("xdr"@) {
                    Some(JsonView::String(xdr)) => match ledger_entry_of_base64(xdr) {
                        Some(d) => match ledger_entry_held(d) {
                            LedgerEntryView::Account(n) => account_sequence(resp, source_account)
                                == Ok::<int, Seq<char>>(n as int),
                            _ => account_sequence(resp, source_account) is Err,
                        },
                        None => account_sequence(resp, source_account) is Err,
                    },
                    _ => account_sequence(resp, source_account) is Err,
                }
            },
            _ => account_sequence(resp, source_account) is Err,
        },
{
}

/// The return value in metadata is the one of its third or fourth version; other
/// metadata has none, and what is no metadata is a failure.
pub proof fn law_return_value_in_metadata(meta: Seq<char>)
    ensures
        match meta_of_base64(meta) {
            Some(MetaView::V3(v)) => meta_value(meta) == Ok::<Option<ValView>, Seq<char>>(v),
            Some(MetaView::V4(Some(v))) => meta_value(meta) == Ok::<Option<ValView>, Seq<char>>(v),
            Some(_) => meta_value(meta) == Ok::<Option<ValView>, Seq<char>>(None),
            None => meta_value(meta) is Err,
        },
{
}

/// A simulation that failed is refused with the reason that the network gives: the text
/// of the error, or the error as JSON where it is no text.
pub proof fn law_reason_of_a_failed_simulation_is_told(resp: JsonView, error: JsonView)
    requires
        resp.at_key("error"@) == Some(error),
    ensures
        simulation_of(resp) == Err::<SimulationView, Seq<char>>(
            "simulation failed: "@ + match error {
                JsonView::String(s) => s,
                _ => crate::json::json_text(crate::json::canonical(error)),
            },
        ),
{
}

} // verus!
