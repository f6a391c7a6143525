//! Transactions in the types of `stellar_xdr`, their signing, and what the
//! network says of accounts, code and results.

use vstd::prelude::*;

use stellar_xdr::ReadXdr;
use stellar_xdr::WriteXdr;

use crate::transaction::signature_views;
use crate::transaction::source_view;
use crate::transaction::Call;
use crate::transaction::Envelope;
use crate::transaction::EnvelopeView;
use crate::transaction::HostWork;
use crate::transaction::HostWorkView;
use crate::transaction::Source;
use crate::transaction::SourceView;
use crate::transaction::Tx;
use crate::transaction::TxOperation;
use crate::transaction::TxOperationView;
use crate::transaction::TxSignature;
use crate::transaction::TxSignatureView;
use crate::transaction::TxView;
use crate::value::fits;
use crate::value::AddressView;
use crate::value::ValView;
use crate::xdr::address_held;
use crate::xdr::held_vals;
use crate::xdr::join_address;
use crate::xdr::val_held;

verus! {

#[verifier::external_type_specification]
#[verifier::external_body]
pub struct ExTransaction(stellar_xdr::Transaction);

#[verifier::external_type_specification]
#[verifier::external_body]
pub struct ExLedgerEntryData(stellar_xdr::LedgerEntryData);

/// `Clone` of `stellar_xdr::HostFunction`: the copy is what was copied.
pub assume_specification[ <stellar_xdr::HostFunction as Clone>::clone ](
    h: &stellar_xdr::HostFunction,
) -> (r: stellar_xdr::HostFunction)
    ensures
        r == *h,
;

/// `Clone` of `stellar_xdr::Operation`: the copy is what was copied.
pub assume_specification[ <stellar_xdr::Operation as Clone>::clone ](
    o: &stellar_xdr::Operation,
) -> (r: stellar_xdr::Operation)
    ensures
        r == *o,
;

/// `Clone` of `stellar_xdr::TransactionEnvelope`: the copy is what was copied.
pub assume_specification[ <stellar_xdr::TransactionEnvelope as Clone>::clone ](
    e: &stellar_xdr::TransactionEnvelope,
) -> (r: stellar_xdr::TransactionEnvelope)
    ensures
        r == *e,
;

/// The `stellar_xdr::HostFunction` of a call.
pub uninterp spec fn xdr_call(
    contract: AddressView,
    function_name: Seq<u8>,
    args: Seq<ValView>,
) -> stellar_xdr::HostFunction;

/// Builds a `stellar_xdr::HostFunction` that calls a contract. A name longer than
/// a symbol may be, and more arguments than `VecM` allows, are refused.
#[verifier::external_body]
fn join_call(
    contract: stellar_xdr::ScAddress,
    name: &Vec<u8>,
    args: Vec<stellar_xdr::ScVal>,
) -> (r: Option<stellar_xdr::HostFunction>)
    ensures
        match r {
            Some(h) => h == xdr_call(address_held(contract), name@, held_vals(args@)) && name@.len()
                <= 32 && args@.len() <= u32::MAX,
            None => name@.len() > 32 || args@.len() > u32::MAX,
        },
{
    Some(stellar_xdr::HostFunction::InvokeContract(stellar_xdr::InvokeContractArgs {
        contract_address: contract,
        function_name: stellar_xdr::ScSymbol(name.try_into().ok()?),
        args: args.try_into().ok()?,
    }))
}

/// The `stellar_xdr::Operation` of an invocation.
pub uninterp spec fn xdr_invoke(
    source: Option<SourceView>,
    work: stellar_xdr::HostFunction,
    auth: Seq<stellar_xdr::SorobanAuthorizationEntry>,
) -> stellar_xdr::Operation;

/// Builds a `stellar_xdr::Operation` that invokes a host function. More
/// authorizations than `VecM` allows are refused.
#[verifier::external_body]
fn join_invoke(
    source: &Option<Source>,
    work: stellar_xdr::HostFunction,
    auth: &Vec<stellar_xdr::SorobanAuthorizationEntry>,
) -> (r: Option<stellar_xdr::Operation>)
    ensures
        match r {
            Some(o) => o == xdr_invoke(source_view(*source), work, auth@) && auth@.len()
                <= u32::MAX,
            None => auth@.len() > u32::MAX,
        },
{
    Some(stellar_xdr::Operation {
        source_account: source.as_ref().map(|s| match s {
            Source::Ed25519(key) => stellar_xdr::MuxedAccount::Ed25519(stellar_xdr::Uint256(*key)),
            Source::Muxed(id, key) => stellar_xdr::MuxedAccount::MuxedEd25519(
                stellar_xdr::MuxedAccountMed25519 { id: *id, ed25519: stellar_xdr::Uint256(*key) }),
        }),
        body: stellar_xdr::OperationBody::InvokeHostFunction(stellar_xdr::InvokeHostFunctionOp {
            host_function: work,
            auth: auth.try_into().ok()?,
        }),
    })
}

/// The `stellar_xdr::Transaction` with the given operations and the other parts
/// of a transaction; no precondition, no memo and no resources where those parts
/// are missing.
pub uninterp spec fn xdr_transaction(
    tx: TxView,
    operations: Seq<stellar_xdr::Operation>,
) -> stellar_xdr::Transaction;

/// Builds a `stellar_xdr::Transaction`. More operations than its `VecM` allows
/// are refused.
#[verifier::external_body]
fn join_transaction(tx: &Tx, operations: Vec<stellar_xdr::Operation>) -> (r: Option<
    stellar_xdr::Transaction,
>)
    ensures
        match r {
            Some(t) => t == xdr_transaction(tx@, operations@) && operations@.len() <= 100,
            None => operations@.len() > 100,
        },
{
    Some(stellar_xdr::Transaction {
        source_account: match &tx.source_account {
            Source::Ed25519(k) => stellar_xdr::MuxedAccount::Ed25519(stellar_xdr::Uint256(*k)),
            Source::Muxed(id, k) => stellar_xdr::MuxedAccount::MuxedEd25519(
                stellar_xdr::MuxedAccountMed25519 { id: *id, ed25519: stellar_xdr::Uint256(*k) }),
        },
        fee: tx.fee,
        seq_num: stellar_xdr::SequenceNumber(tx.seq_num),
        cond: tx.cond.clone().unwrap_or(stellar_xdr::Preconditions::None),
        memo: tx.memo.clone().unwrap_or(stellar_xdr::Memo::None),
        operations: operations.try_into().ok()?,
        ext: tx.soroban_data.clone().map_or(
            stellar_xdr::TransactionExt::V0, stellar_xdr::TransactionExt::V1),
    })
}

/// The `stellar_xdr::TransactionEnvelope` of a transaction with its signatures.
pub uninterp spec fn xdr_envelope(
    tx: stellar_xdr::Transaction,
    signatures: Seq<TxSignatureView>,
) -> stellar_xdr::TransactionEnvelope;

pub open spec fn signatures_fit(signatures: Seq<TxSignatureView>) -> bool {
    &&& signatures.len() <= 20
    &&& forall|i: int|
        0 <= i < signatures.len() ==> (#[trigger] signatures[i]).signature.len() <= 64
}

/// Builds a `stellar_xdr::TransactionEnvelope`. More signatures than its `VecM`
/// allows, and signatures longer than `BytesM` allows, are refused.
#[verifier::external_body]
fn join_envelope(tx: stellar_xdr::Transaction, signatures: &Vec<TxSignature>) -> (r: Option<
    stellar_xdr::TransactionEnvelope,
>)
    ensures
        match r {
            Some(e) => e == xdr_envelope(tx, signature_views(signatures@)) && signatures_fit(
                signature_views(signatures@),
            ),
            None => !signatures_fit(signature_views(signatures@)),
        },
{
    let made: Option<Vec<_>> = signatures.iter().map(|s| {
        Some(stellar_xdr::DecoratedSignature {
            hint: stellar_xdr::SignatureHint(s.hint),
            signature: stellar_xdr::Signature((&s.signature).try_into().ok()?),
        })
    }).collect();
    Some(stellar_xdr::TransactionEnvelope::Tx(stellar_xdr::TransactionV1Envelope {
        tx,
        signatures: made?.try_into().ok()?,
    }))
}

/// The base64 text of an envelope on the wire.
pub uninterp spec fn envelope_base64(e: stellar_xdr::TransactionEnvelope) -> Option<Seq<char>>;

/// `WriteXdr::to_xdr_base64` of `stellar_xdr::TransactionEnvelope`, without
/// limits. It fails where a sequence in the envelope has more elements than 32 bits
/// can count; which envelopes these are is not said.
#[verifier::external_body]
fn encode_envelope(e: &stellar_xdr::TransactionEnvelope) -> (r: Option<String>)
    ensures
        match r {
            Some(s) => envelope_base64(*e) == Some(s@),
            None => envelope_base64(*e) is None,
        },
{
    e.to_xdr_base64(stellar_xdr::Limits::none()).ok()
}

/// The bytes that a signature of a transaction is made over, before hashing.
pub uninterp spec fn payload_xdr(network: Seq<u8>, tx: stellar_xdr::Transaction) -> Option<Seq<u8>>;

/// `WriteXdr::to_xdr` of the `stellar_xdr::TransactionSignaturePayload` of a
/// transaction on a network, without limits. It fails where a sequence in the
/// transaction has more elements than 32 bits can count; which transactions these
/// are is not said.
#[verifier::external_body]
fn encode_payload(network: &[u8; 32], tx: stellar_xdr::Transaction) -> (r: Option<Vec<u8>>)
    ensures
        match r {
            Some(b) => payload_xdr(network@, tx) == Some(b@),
            None => payload_xdr(network@, tx) is None,
        },
{
    stellar_xdr::TransactionSignaturePayload {
        network_id: stellar_xdr::Hash(*network),
        tagged_transaction: stellar_xdr::TransactionSignaturePayloadTaggedTransaction::Tx(tx),
    }.to_xdr(stellar_xdr::Limits::none()).ok()
}

/// The SHA-256 digest of bytes.
pub uninterp spec fn sha256_of(data: Seq<u8>) -> Seq<u8>;

/// `Digest::digest` of `sha2::Sha256`.
#[verifier::external_body]
pub(crate) fn sha256(data: &[u8]) -> (r: [u8; 32])
    ensures
        r@ == sha256_of(data@),
{
    <sha2::Sha256 as sha2::Digest>::digest(data).into()
}

/// The Ed25519 signature of a message by the key of a seed.
pub uninterp spec fn signature_of(seed: Seq<u8>, message: Seq<u8>) -> Seq<u8>;

/// `Signer::sign` of the `ed25519_dalek::SigningKey` of a seed.
#[verifier::external_body]
pub(crate) fn sign_message(seed: &[u8; 32], message: &[u8]) -> (r: [u8; 64])
    ensures
        r@ == signature_of(seed@, message@),
{
    ed25519_dalek::Signer::sign(&ed25519_dalek::SigningKey::from_bytes(seed), message).to_bytes()
}

/// The Ed25519 public key of a seed.
pub uninterp spec fn public_key_of(seed: Seq<u8>) -> Seq<u8>;

/// `SigningKey::verifying_key` of the `ed25519_dalek::SigningKey` of a seed.
#[verifier::external_body]
pub(crate) fn public_key(seed: &[u8; 32]) -> (r: [u8; 32])
    ensures
        r@ == public_key_of(seed@),
{
    ed25519_dalek::SigningKey::from_bytes(seed).verifying_key().to_bytes()
}

/// The `stellar_xdr::HostFunction` of what an invocation has the host do.
pub open spec fn work_xdr(work: HostWorkView) -> stellar_xdr::HostFunction {
    match work {
        HostWorkView::Call(c) => xdr_call(c.contract, c.function_name, c.args),
        HostWorkView::Other(h) => h,
    }
}

/// The `stellar_xdr::Operation` of an operation.
pub open spec fn operation_xdr(op: TxOperationView) -> stellar_xdr::Operation {
    match op {
        TxOperationView::Invoke(i) => xdr_invoke(i.source, work_xdr(i.work), i.auth),
        TxOperationView::Other(o) => o,
    }
}

pub open spec fn operations_xdr(ops: Seq<TxOperationView>) -> Seq<stellar_xdr::Operation> {
    Seq::new(ops.len(), |i: int| operation_xdr(ops[i]))
}

/// The `stellar_xdr::Transaction` of a transaction.
pub open spec fn tx_xdr(tx: TxView) -> stellar_xdr::Transaction {
    xdr_transaction(tx, operations_xdr(tx.operations))
}

/// The `stellar_xdr::TransactionEnvelope` of an envelope.
pub open spec fn envelope_xdr(e: EnvelopeView) -> stellar_xdr::TransactionEnvelope {
    match e {
        EnvelopeView::Tx(s) => xdr_envelope(tx_xdr(s.tx), s.signatures),
        EnvelopeView::Other(o) => o,
    }
}

impl Call {
    fn to_xdr(&self) -> (r: Option<stellar_xdr::HostFunction>)
        ensures
            match r {
                Some(h) => self@.fits() && h == xdr_call(
                    self@.contract,
                    self@.function_name,
                    self@.args,
                ),
                None => !self@.fits(),
            },
    {
        let mut args: Vec<stellar_xdr::ScVal> = Vec::new();
        let mut i: usize = 0;
        while i < self.args.len()
            invariant
                i <= self.args@.len(),
                args@.len() == i,
                forall|k: int| 0 <= k < i ==> val_held(#[trigger] args@[k]) == self@.args[k],
                forall|k: int| 0 <= k < i ==> fits(#[trigger] self@.args[k]),
            decreases self.args@.len() - i,
        {
            assert(self@.args[i as int] == self.args@[i as int]@);
            match self.args[i].to_xdr() {
                Some(x) => args.push(x),
                None => {
                    assert(!fits(self@.args[i as int]));
                    return None;
                },
            }
            i += 1;
        }
        assert(held_vals(args@) =~= self@.args);
        join_call(join_address(&self.contract), &self.function_name, args)
    }
}

impl TxOperation {
    fn to_xdr(&self) -> (r: Option<stellar_xdr::Operation>)
        ensures
            match r {
                Some(o) => self@.fits() && o == operation_xdr(self@),
                None => !self@.fits(),
            },
    {
        match self {
            TxOperation::Invoke(i) => {
                let work = match &i.work {
                    HostWork::Call(c) => match c.to_xdr() {
                        Some(h) => h,
                        None => return None,
                    },
                    HostWork::Other(h) => h.clone(),
                };
                join_invoke(&i.source, work, &i.auth)
            },
            TxOperation::Other(o) => Some(o.clone()),
        }
    }
}

impl Tx {
    /// Builds the `stellar_xdr::Transaction`, if it keeps to the limits of the
    /// wire format.
    pub fn to_xdr(&self) -> (r: Option<stellar_xdr::Transaction>)
        ensures
            match r {
                Some(t) => self@.fits() && t == tx_xdr(self@),
                None => !self@.fits(),
            },
    {
        let mut ops: Vec<stellar_xdr::Operation> = Vec::new();
        let mut i: usize = 0;
        while i < self.operations.len()
            invariant
                i <= self.operations@.len(),
                ops@.len() == i,
                forall|k: int|
                    0 <= k < i ==> #[trigger] ops@[k] == operation_xdr(self@.operations[k]),
                forall|k: int| 0 <= k < i ==> (#[trigger] self@.operations[k]).fits(),
            decreases self.operations@.len() - i,
        {
            assert(self@.operations[i as int] == self.operations@[i as int]@);
            match self.operations[i].to_xdr() {
                Some(o) => ops.push(o),
                None => {
                    assert(!self@.operations[i as int].fits());
                    return None;
                },
            }
            i += 1;
        }
        assert(ops@ =~= operations_xdr(self@.operations));
        join_transaction(self, ops)
    }
}

impl Envelope {
    /// Builds the `stellar_xdr::TransactionEnvelope`, if it keeps to the limits of
    /// the wire format.
    pub fn to_xdr(&self) -> (r: Option<stellar_xdr::TransactionEnvelope>)
        ensures
            match r {
                Some(e) => self@.fits() && e == envelope_xdr(self@),
                None => !self@.fits(),
            },
    {
        match self {
            Envelope::Tx(s) => match s.tx.to_xdr() {
                Some(tx) => join_envelope(tx, &s.signatures),
                None => None,
            },
            Envelope::Other(e) => Some(e.clone()),
        }
    }

    /// The base64 text on the wire, if there is one.
    pub fn to_base64(&self) -> (r: Option<String>)
        ensures
            match r {
                Some(s) => envelope_text(self@) == Some(s@),
                None => envelope_text(self@) is None,
            },
    {
        match self.to_xdr() {
            Some(e) => encode_envelope(&e),
            None => None,
        }
    }
}

/// The base64 text of an envelope on the wire, if it keeps to the limits of the
/// wire format.
pub open spec fn envelope_text(e: EnvelopeView) -> Option<Seq<char>> {
    if e.fits() {
        envelope_base64(envelope_xdr(e))
    } else {
        None
    }
}

/// The hash that a transaction is signed by, on the network of a passphrase.
pub open spec fn tx_hash(tx: TxView, passphrase: Seq<char>) -> Option<Seq<u8>> {
    if tx.fits() {
        match payload_xdr(sha256_of(vstd::utf8::encode_utf8(passphrase)), tx_xdr(tx)) {
            Some(payload) => Some(sha256_of(payload)),
            None => None,
        }
    } else {
        None
    }
}

/// The hash that a transaction is signed by.
pub fn hash_tx(tx: &Tx, passphrase: &str) -> (r: Option<[u8; 32]>)
    ensures
        match r {
            Some(h) => tx_hash(tx@, passphrase@) == Some(h@),
            None => tx_hash(tx@, passphrase@) is None,
        },
{
    let network = sha256(passphrase.as_bytes());
    match tx.to_xdr() {
        Some(t) => match encode_payload(&network, t) {
            Some(payload) => Some(sha256(payload.as_slice())),
            None => None,
        },
        None => None,
    }
}

/// The authorization that a base64 text holds on the wire, if it is one.
pub uninterp spec fn auth_of_base64(s: Seq<char>) -> Option<
    stellar_xdr::SorobanAuthorizationEntry,
>;

/// `ReadXdr::from_xdr_base64` of `stellar_xdr::SorobanAuthorizationEntry`, without
/// limits.
#[verifier::external_body]
pub(crate) fn read_auth(s: &str) -> (r: Option<stellar_xdr::SorobanAuthorizationEntry>)
    ensures
        r == auth_of_base64(s@),
{
    stellar_xdr::SorobanAuthorizationEntry::from_xdr_base64(s, stellar_xdr::Limits::none()).ok()
}

/// The return value that a transaction's metadata holds, by their version.
#[derive(Debug, PartialEq)]
pub enum Meta {
    V3(Option<stellar_xdr::ScVal>),
    V4(Option<Option<stellar_xdr::ScVal>>),
    Other,
}

pub enum MetaView {
    V3(Option<ValView>),
    V4(Option<Option<ValView>>),
    Other,
}

impl Meta {
    pub open spec fn held(self) -> MetaView {
        match self {
            Meta::V3(None) => MetaView::V3(None),
            Meta::V3(Some(v)) => MetaView::V3(Some(val_held(v))),
            Meta::V4(None) => MetaView::V4(None),
            Meta::V4(Some(None)) => MetaView::V4(Some(None)),
            Meta::V4(Some(Some(v))) => MetaView::V4(Some(Some(val_held(v)))),
            Meta::Other => MetaView::Other,
        }
    }
}

/// The metadata that a base64 text holds on the wire, if it does.
pub uninterp spec fn meta_of_base64(s: Seq<char>) -> Option<MetaView>;

/// `ReadXdr::from_xdr_base64` of `stellar_xdr::TransactionMeta`, without limits;
/// of the metadata, the return value in those of the versions that have one.
#[verifier::external_body]
pub(crate) fn read_meta(s: &str) -> (r: Option<Meta>)
    ensures
        match r {
            Some(m) => meta_of_base64(s@) == Some(m.held()),
            None => meta_of_base64(s@) is None,
        },
{
    Some(match stellar_xdr::TransactionMeta::from_xdr_base64(s, stellar_xdr::Limits::none()).ok()? {
        stellar_xdr::TransactionMeta::V3(m) => Meta::V3(m.soroban_meta.map(|m| m.return_value)),
        stellar_xdr::TransactionMeta::V4(m) => Meta::V4(m.soroban_meta.map(|m| m.return_value)),
        _ => Meta::Other,
    })
}

/// What is read of a ledger entry: the sequence number of an account, the code of
/// a contract, or nothing of any other.
pub enum LedgerEntry {
    Account(i64),
    ContractCode(Vec<u8>),
    Other,
}

pub enum LedgerEntryView {
    Account(i64),
    ContractCode(Seq<u8>),
    Other,
}

impl View for LedgerEntry {
    type V = LedgerEntryView;

    open spec fn view(&self) -> LedgerEntryView {
        match *self {
            LedgerEntry::Account(n) => LedgerEntryView::Account(n),
            LedgerEntry::ContractCode(code) => LedgerEntryView::ContractCode(code@),
            LedgerEntry::Other => LedgerEntryView::Other,
        }
    }
}

/// The ledger entry that a base64 text holds on the wire, if it is one.
pub uninterp spec fn ledger_entry_of_base64(s: Seq<char>) -> Option<stellar_xdr::LedgerEntryData>;

/// What is read of a `stellar_xdr::LedgerEntryData`.
pub uninterp spec fn ledger_entry_held(d: stellar_xdr::LedgerEntryData) -> LedgerEntryView;

/// The debug notation of a ledger entry.
pub uninterp spec fn ledger_entry_debug(d: stellar_xdr::LedgerEntryData) -> Seq<char>;

/// `ReadXdr::from_xdr_base64` of `stellar_xdr::LedgerEntryData`, without limits.
#[verifier::external_body]
pub(crate) fn read_ledger_entry(s: &str) -> (r: Option<stellar_xdr::LedgerEntryData>)
    ensures
        r == ledger_entry_of_base64(s@),
{
    stellar_xdr::LedgerEntryData::from_xdr_base64(s, stellar_xdr::Limits::none()).ok()
}

/// Reads an account's sequence number, or a contract's code, out of a
/// `stellar_xdr::LedgerEntryData`.
#[verifier::external_body]
pub(crate) fn split_ledger_entry(d: &stellar_xdr::LedgerEntryData) -> (r: LedgerEntry)
    ensures
        r@ == ledger_entry_held(*d),
{
    match d {
        stellar_xdr::LedgerEntryData::Account(a) => LedgerEntry::Account(a.seq_num.0),
        stellar_xdr::LedgerEntryData::ContractCode(c) => LedgerEntry::ContractCode(c.code.to_vec()),
        _ => LedgerEntry::Other,
    }
}

/// `Debug` of `stellar_xdr::LedgerEntryData`.
#[verifier::external_body]
pub(crate) fn debug_ledger_entry(d: &stellar_xdr::LedgerEntryData) -> (r: String)
    ensures
        r@ == ledger_entry_debug(*d),
{
    format!("{:?}", d)
}

/// The key of a ledger entry to ask the network for.
pub enum LookupKey {
    Account([u8; 32]),
    ContractCode([u8; 32]),
}

pub enum LookupKeyView {
    Account(Seq<u8>),
    ContractCode(Seq<u8>),
}

impl View for LookupKey {
    type V = LookupKeyView;

    open spec fn view(&self) -> LookupKeyView {
        match *self {
            LookupKey::Account(key) => LookupKeyView::Account(key@),
            LookupKey::ContractCode(hash) => LookupKeyView::ContractCode(hash@),
        }
    }
}

/// The base64 text of a ledger key on the wire.
pub uninterp spec fn lookup_key_base64(k: LookupKeyView) -> Seq<char>;

/// `WriteXdr::to_xdr_base64` of the `stellar_xdr::LedgerKey` of an account or of a
/// contract's code, without limits. Both are of a fixed size and written to memory,
/// so the call does not fail.
#[verifier::external_body]
pub(crate) fn encode_lookup_key(k: &LookupKey) -> (r: Result<String, String>)
    ensures
        match r {
            Ok(s) => s@ == lookup_key_base64(k@),
            Err(_) => false,
        },
{
    let key = match k {
        LookupKey::Account(id) => stellar_xdr::LedgerKey::Account(stellar_xdr::LedgerKeyAccount {
            account_id: stellar_xdr::AccountId(
                stellar_xdr::PublicKey::PublicKeyTypeEd25519(stellar_xdr::Uint256(*id))),
        }),
        LookupKey::ContractCode(hash) => stellar_xdr::LedgerKey::ContractCode(
            stellar_xdr::LedgerKeyContractCode { hash: stellar_xdr::Hash(*hash) }),
    };
    key.to_xdr_base64(stellar_xdr::Limits::none()).map_err(|e| e.to_string())
}

} // verus!
