//! The data that the resolver reads and returns, each with its view.
//!
//! Texts (transaction ids, block hashes, addresses) are held as `String` and
//! viewed as `Seq<char>`; amounts are satoshi counts.

use vstd::prelude::*;

verus! {

/// The view of a text that may be absent.
pub open spec fn text_view(text: Option<String>) -> Option<Seq<char>> {
    match text {
        Some(t) => Some(t@),
        None => None,
    }
}

/// A transaction's identifier, with the block that holds it once there is one.
#[derive(Debug, Clone, PartialEq, Eq)]
pub struct TransactionRef {
    /// The transaction's hash, as text.
    pub txid: String,
    /// The hash of the containing block; `None` until the transaction is confirmed.
    pub block_hash: Option<String>,
}

pub struct TransactionRefView {
    pub txid: Seq<char>,
    pub block_hash: Option<Seq<char>>,
}

impl View for TransactionRef {
    type V = TransactionRefView;

    open spec fn view(&self) -> TransactionRefView {
        TransactionRefView { txid: self.txid@, block_hash: text_view(self.block_hash) }
    }
}

impl TransactionRef {
    /// A reference to a transaction that no block holds yet.
    pub fn unconfirmed(txid: String) -> (r: TransactionRef)
        ensures
            r@ == (TransactionRefView { txid: txid@, block_hash: None }),
    {
        TransactionRef { txid, block_hash: None }
    }

    /// Whether a containing block is known.
    pub fn is_confirmed(&self) -> (confirmed: bool)
        ensures
            confirmed == self@.block_hash.is_some(),
    {
        self.block_hash.is_some()
    }
}

/// What an input spends: an output of an earlier transaction.
#[derive(Debug, Clone, PartialEq, Eq)]
pub struct InputReference {
    /// The earlier transaction's id; absent on an input that spends nothing.
    pub prev_txid: Option<String>,
    /// The position of the spent output in the earlier transaction.
    pub prev_index: Option<u32>,
}

pub struct InputView {
    pub prev_txid: Option<Seq<char>>,
    pub prev_index: Option<u32>,
}

impl View for InputReference {
    type V = InputView;

    open spec fn view(&self) -> InputView {
        InputView { prev_txid: text_view(self.prev_txid), prev_index: self.prev_index }
    }
}

/// One output of a transaction.
#[derive(Debug, Clone, PartialEq, Eq)]
pub struct OutputDescriptor {
    /// The destination address; absent where the script yields none.
    pub address: Option<String>,
    /// The output's value in satoshi.
    pub amount: u64,
}

pub struct OutputView {
    pub address: Option<Seq<char>>,
    pub amount: u64,
}

impl View for OutputDescriptor {
    type V = OutputView;

    open spec fn view(&self) -> OutputView {
        OutputView { address: text_view(self.address), amount: self.amount }
    }
}

/// A decoded transaction, as far as the resolver reads it.
#[derive(Debug, Clone, PartialEq, Eq)]
pub struct DecodedTransaction {
    pub inputs: Vec<InputReference>,
    pub outputs: Vec<OutputDescriptor>,
}

pub struct TransactionView {
    pub inputs: Seq<InputView>,
    pub outputs: Seq<OutputView>,
}

/// The views of a list of outputs, in order.
pub open spec fn outputs_view(outputs: Seq<OutputDescriptor>) -> Seq<OutputView> {
    Seq::new(outputs.len(), |i: int| outputs[i]@)
}

/// The views of a list of inputs, in order.
pub open spec fn inputs_view(inputs: Seq<InputReference>) -> Seq<InputView> {
    Seq::new(inputs.len(), |i: int| inputs[i]@)
}

impl View for DecodedTransaction {
    type V = TransactionView;

    open spec fn view(&self) -> TransactionView {
        TransactionView {
            inputs: inputs_view(self.inputs@),
            outputs: outputs_view(self.outputs@),
        }
    }
}

/// Why a resolution failed.
#[derive(Debug, Clone, Copy, PartialEq, Eq, Structural)]
pub enum ResolveError {
    /// The transaction has no input.
    MalformedTransaction,
    /// The output that the first input spends could not be found.
    DanglingReference,
    /// An ownership lookup failed. The resolver absorbs such a failure and
    /// never returns this.
    OwnershipQueryFailed,
    /// Any other failure of a query.
    QueryTransportError,
}

} // verus!
