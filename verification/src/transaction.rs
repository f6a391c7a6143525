//! Transactions that call a contract, and their signatures.

use vstd::prelude::*;

use crate::value::fits;
use crate::value::val_views;
use crate::value::Address;
use crate::value::AddressView;
use crate::value::Val;
use crate::value::ValView;

verus! {

#[verifier::external_type_specification]
#[verifier::external_body]
pub struct ExHostFunction(stellar_xdr::HostFunction);

#[verifier::external_type_specification]
#[verifier::external_body]
pub struct ExSorobanAuthorizationEntry(stellar_xdr::SorobanAuthorizationEntry);

#[verifier::external_type_specification]
#[verifier::external_body]
pub struct ExOperation(stellar_xdr::Operation);

#[verifier::external_type_specification]
#[verifier::external_body]
pub struct ExPreconditions(stellar_xdr::Preconditions);

#[verifier::external_type_specification]
#[verifier::external_body]
pub struct ExMemo(stellar_xdr::Memo);

#[verifier::external_type_specification]
#[verifier::external_body]
pub struct ExTransactionEnvelope(stellar_xdr::TransactionEnvelope);

/// The account that a transaction or an operation is made by, with the id that a
/// multiplexed account adds.
#[derive(Debug, PartialEq)]
pub enum Source {
    Ed25519([u8; 32]),
    Muxed(u64, [u8; 32]),
}

pub enum SourceView {
    Ed25519(Seq<u8>),
    Muxed(u64, Seq<u8>),
}

impl View for Source {
    type V = SourceView;

    open spec fn view(&self) -> SourceView {
        match *self {
            Source::Ed25519(key) => SourceView::Ed25519(key@),
            Source::Muxed(id, key) => SourceView::Muxed(id, key@),
        }
    }
}

pub open spec fn source_view(source: Option<Source>) -> Option<SourceView> {
    match source {
        Some(s) => Some(s@),
        None => None,
    }
}

/// The call of a contract's function.
#[derive(Debug, PartialEq)]
pub struct Call {
    pub contract: Address,
    pub function_name: Vec<u8>,
    pub args: Vec<Val>,
}

#[verifier::ext_equal]
pub struct CallView {
    pub contract: AddressView,
    pub function_name: Seq<u8>,
    pub args: Seq<ValView>,
}

impl View for Call {
    type V = CallView;

    open spec fn view(&self) -> CallView {
        CallView {
            contract: self.contract@,
            function_name: self.function_name@,
            args: val_views(self.args@),
        }
    }
}

/// What an invocation has the host do: a call, or something else.
#[derive(Debug, PartialEq)]
pub enum HostWork {
    Call(Call),
    Other(stellar_xdr::HostFunction),
}

pub enum HostWorkView {
    Call(CallView),
    Other(stellar_xdr::HostFunction),
}

impl View for HostWork {
    type V = HostWorkView;

    open spec fn view(&self) -> HostWorkView {
        match *self {
            HostWork::Call(c) => HostWorkView::Call(c@),
            HostWork::Other(h) => HostWorkView::Other(h),
        }
    }
}

/// The invocation of a host function, with the authorizations for it.
#[derive(Debug, PartialEq)]
pub struct Invocation {
    pub source: Option<Source>,
    pub work: HostWork,
    pub auth: Vec<stellar_xdr::SorobanAuthorizationEntry>,
}

#[verifier::ext_equal]
pub struct InvocationView {
    pub source: Option<SourceView>,
    pub work: HostWorkView,
    pub auth: Seq<stellar_xdr::SorobanAuthorizationEntry>,
}

impl View for Invocation {
    type V = InvocationView;

    open spec fn view(&self) -> InvocationView {
        InvocationView {
            source: source_view(self.source),
            work: self.work@,
            auth: self.auth@,
        }
    }
}

/// An operation of a transaction: an invocation, or something else.
#[derive(Debug, PartialEq)]
pub enum TxOperation {
    Invoke(Invocation),
    Other(stellar_xdr::Operation),
}

pub enum TxOperationView {
    Invoke(InvocationView),
    Other(stellar_xdr::Operation),
}

impl View for TxOperation {
    type V = TxOperationView;

    open spec fn view(&self) -> TxOperationView {
        match *self {
            TxOperation::Invoke(i) => TxOperationView::Invoke(i@),
            TxOperation::Other(o) => TxOperationView::Other(o),
        }
    }
}

pub open spec fn operation_views(items: Seq<TxOperation>) -> Seq<TxOperationView> {
    Seq::new(items.len(), |i: int| items[i]@)
}

/// A transaction.
#[derive(Debug, PartialEq)]
pub struct Tx {
    pub source_account: Source,
    pub fee: u32,
    pub seq_num: i64,
    pub cond: Option<stellar_xdr::Preconditions>,
    pub memo: Option<stellar_xdr::Memo>,
    pub operations: Vec<TxOperation>,
    pub soroban_data: Option<stellar_xdr::SorobanTransactionData>,
}

#[verifier::ext_equal]
pub struct TxView {
    pub source_account: SourceView,
    pub fee: u32,
    pub seq_num: i64,
    pub cond: Option<stellar_xdr::Preconditions>,
    pub memo: Option<stellar_xdr::Memo>,
    pub operations: Seq<TxOperationView>,
    pub soroban_data: Option<stellar_xdr::SorobanTransactionData>,
}

impl View for Tx {
    type V = TxView;

    open spec fn view(&self) -> TxView {
        TxView {
            source_account: self.source_account@,
            fee: self.fee,
            seq_num: self.seq_num,
            cond: self.cond,
            memo: self.memo,
            operations: operation_views(self.operations@),
            soroban_data: self.soroban_data,
        }
    }
}

/// A signature with the hint at the key that made it.
#[derive(Debug, PartialEq)]
pub struct TxSignature {
    pub hint: [u8; 4],
    pub signature: Vec<u8>,
}

pub struct TxSignatureView {
    pub hint: Seq<u8>,
    pub signature: Seq<u8>,
}

impl View for TxSignature {
    type V = TxSignatureView;

    open spec fn view(&self) -> TxSignatureView {
        TxSignatureView { hint: self.hint@, signature: self.signature@ }
    }
}

pub open spec fn signature_views(items: Seq<TxSignature>) -> Seq<TxSignatureView> {
    Seq::new(items.len(), |i: int| items[i]@)
}

/// A transaction with its signatures.
#[derive(Debug, PartialEq)]
pub struct SignedTx {
    pub tx: Tx,
    pub signatures: Vec<TxSignature>,
}

#[verifier::ext_equal]
pub struct SignedTxView {
    pub tx: TxView,
    pub signatures: Seq<TxSignatureView>,
}

impl View for SignedTx {
    type V = SignedTxView;

    open spec fn view(&self) -> SignedTxView {
        SignedTxView { tx: self.tx@, signatures: signature_views(self.signatures@) }
    }
}

/// What is sent to the network: a transaction with its signatures, or an
/// envelope of another version.
#[derive(Debug, PartialEq)]
pub enum Envelope {
    Tx(SignedTx),
    Other(stellar_xdr::TransactionEnvelope),
}

pub enum EnvelopeView {
    Tx(SignedTxView),
    Other(stellar_xdr::TransactionEnvelope),
}

impl View for Envelope {
    type V = EnvelopeView;

    open spec fn view(&self) -> EnvelopeView {
        match *self {
            Envelope::Tx(s) => EnvelopeView::Tx(s@),
            Envelope::Other(e) => EnvelopeView::Other(e),
        }
    }
}

impl CallView {
    /// Whether a call keeps to the limits of the wire format.
    pub open spec fn fits(self) -> bool {
        &&& self.function_name.len() <= 32
        &&& self.args.len() <= u32::MAX
        &&& forall|i: int| 0 <= i < self.args.len() ==> fits(#[trigger] self.args[i])
    }
}

impl TxOperationView {
    /// Whether an operation keeps to the limits of the wire format.
    pub open spec fn fits(self) -> bool {
        match self {
            TxOperationView::Invoke(i) => {
                &&& i.auth.len() <= u32::MAX
                &&& match i.work {
                    HostWorkView::Call(c) => c.fits(),
                    HostWorkView::Other(_) => true,
                }
            },
            TxOperationView::Other(_) => true,
        }
    }
}

impl TxView {
    /// Whether a transaction keeps to the limits of the wire format: it has at
    /// most 100 operations.
    pub open spec fn fits(self) -> bool {
        &&& self.operations.len() <= 100
        &&& forall|i: int| 0 <= i < self.operations.len() ==> (#[trigger] self.operations[i]).fits()
    }
}

impl EnvelopeView {
    /// Whether an envelope keeps to the limits of the wire format: it has at most
    /// 20 signatures of at most 64 bytes.
    pub open spec fn fits(self) -> bool {
        match self {
            EnvelopeView::Tx(s) => {
                &&& s.tx.fits()
                &&& s.signatures.len() <= 20
                &&& forall|i: int|
                    0 <= i < s.signatures.len() ==> (#[trigger] s.signatures[i]).signature.len()
                        <= 64
            },
            EnvelopeView::Other(_) => true,
        }
    }
}

} // verus!
