//! The result of a resolution, and the tally from which it is settled.
//!
//! While the outputs of a transaction are classified, a `Tally` holds what
//! has been found so far. Settling it adds the fee: the distance between the
//! source amount and what the counterparty and the change output received.

use vstd::prelude::*;
use crate::amount::{distance, spec_distance};
use crate::model::{OutputDescriptor, OutputView};

verus! {

/// The fee implied by a source amount and the two amounts paid out of it.
pub open spec fn spec_fee(source: u64, counterparty: u64, change: u64) -> int {
    spec_distance(source as int, counterparty + change)
}

/// Where the money of a payment came from and where it went.
#[derive(Debug, Clone, PartialEq, Eq)]
pub struct ProvenanceResult {
    /// The address that held the spent output; empty where it has none.
    pub source_address: String,
    /// The value of the spent output.
    pub source_amount: u64,
    /// The address of the counterparty; empty where no output paid it.
    pub counterparty_address: String,
    /// What the counterparty received.
    pub counterparty_amount: u64,
    /// The address that took the change; empty where there was none.
    pub change_address: String,
    /// What came back as change.
    pub change_amount: u64,
    /// What the transaction left to the network. It is a distance, hence
    /// never negative, and may exceed any single amount.
    pub fee: u128,
}

pub struct ProvenanceView {
    pub source_address: Seq<char>,
    pub source_amount: u64,
    pub counterparty_address: Seq<char>,
    pub counterparty_amount: u64,
    pub change_address: Seq<char>,
    pub change_amount: u64,
    pub fee: u128,
}

impl View for ProvenanceResult {
    type V = ProvenanceView;

    open spec fn view(&self) -> ProvenanceView {
        ProvenanceView {
            source_address: self.source_address@,
            source_amount: self.source_amount,
            counterparty_address: self.counterparty_address@,
            counterparty_amount: self.counterparty_amount,
            change_address: self.change_address@,
            change_amount: self.change_amount,
            fee: self.fee,
        }
    }
}

impl ProvenanceView {
    /// The fee is the distance between the source amount and the sum paid out.
    pub open spec fn is_balanced(self) -> bool {
        self.fee == spec_fee(self.source_amount, self.counterparty_amount, self.change_amount)
    }

    /// The outputs found do not pay out more than the source held.
    pub open spec fn is_covered(self) -> bool {
        self.counterparty_amount + self.change_amount <= self.source_amount
    }
}

/// What has been found of a payment while its outputs are classified.
#[derive(Debug, Clone, PartialEq, Eq)]
pub struct Tally {
    pub source_address: String,
    pub source_amount: u64,
    pub counterparty_address: String,
    pub counterparty_amount: u64,
    pub change_address: String,
    pub change_amount: u64,
}

pub struct TallyView {
    pub source_address: Seq<char>,
    pub source_amount: u64,
    pub counterparty_address: Seq<char>,
    pub counterparty_amount: u64,
    pub change_address: Seq<char>,
    pub change_amount: u64,
}

impl View for Tally {
    type V = TallyView;

    open spec fn view(&self) -> TallyView {
        TallyView {
            source_address: self.source_address@,
            source_amount: self.source_amount,
            counterparty_address: self.counterparty_address@,
            counterparty_amount: self.counterparty_amount,
            change_address: self.change_address@,
            change_amount: self.change_amount,
        }
    }
}

/// The address of an output as a text: empty where it has none.
pub open spec fn address_or_empty(address: Option<Seq<char>>) -> Seq<char> {
    match address {
        Some(a) => a,
        None => Seq::empty(),
    }
}

impl TallyView {
    /// The tally before any output is classified: the spent output is the
    /// source, and nothing has been paid yet.
    pub open spec fn opening(source: OutputView) -> TallyView {
        TallyView {
            source_address: address_or_empty(source.address),
            source_amount: source.amount,
            counterparty_address: Seq::empty(),
            counterparty_amount: 0,
            change_address: Seq::empty(),
            change_amount: 0,
        }
    }

    /// The tally with the counterparty output set; an earlier one is replaced.
    pub open spec fn with_counterparty(self, address: Seq<char>, amount: u64) -> TallyView {
        TallyView { counterparty_address: address, counterparty_amount: amount, ..self }
    }

    /// The tally with the change output set; an earlier one is replaced.
    pub open spec fn with_change(self, address: Seq<char>, amount: u64) -> TallyView {
        TallyView { change_address: address, change_amount: amount, ..self }
    }

    /// The result that the tally amounts to.
    pub open spec fn settle(self) -> ProvenanceView {
        ProvenanceView {
            source_address: self.source_address,
            source_amount: self.source_amount,
            counterparty_address: self.counterparty_address,
            counterparty_amount: self.counterparty_amount,
            change_address: self.change_address,
            change_amount: self.change_amount,
            fee: spec_fee(self.source_amount, self.counterparty_amount, self.change_amount) as u128,
        }
    }
}

impl Tally {
    /// Opens a tally on the output that the payment spends.
    pub fn open(source: &OutputDescriptor) -> (tally: Tally)
        ensures
            tally@ == TallyView::opening(source@),
    {
        let source_address = match &source.address {
            Some(a) => a.clone(),
            None => String::new(),
        };
        Tally {
            source_address,
            source_amount: source.amount,
            counterparty_address: String::new(),
            counterparty_amount: 0,
            change_address: String::new(),
            change_amount: 0,
        }
    }

    /// Records the output that paid the counterparty.
    pub fn set_counterparty(&mut self, address: &String, amount: u64)
        ensures
            final(self)@ == old(self)@.with_counterparty(address@, amount),
    {
        self.counterparty_address = address.clone();
        self.counterparty_amount = amount;
    }

    /// Records the output that returned change.
    pub fn set_change(&mut self, address: &String, amount: u64)
        ensures
            final(self)@ == old(self)@.with_change(address@, amount),
    {
        self.change_address = address.clone();
        self.change_amount = amount;
    }

    /// Closes the tally and computes the fee.
    pub fn settle(self) -> (result: ProvenanceResult)
        ensures
            result@ == self@.settle(),
            result@.is_balanced(),
    {
        let paid: u128 = self.counterparty_amount as u128 + self.change_amount as u128;
        let fee = distance(self.source_amount as u128, paid);
        ProvenanceResult {
            source_address: self.source_address,
            source_amount: self.source_amount,
            counterparty_address: self.counterparty_address,
            counterparty_amount: self.counterparty_amount,
            change_address: self.change_address,
            change_amount: self.change_amount,
            fee,
        }
    }
}

/// A settled tally is balanced, and its fee fits the result's field.
pub proof fn lemma_settle_balanced(tally: TallyView)
    ensures
        tally.settle().is_balanced(),
        tally.settle().fee == spec_fee(
            tally.source_amount,
            tally.counterparty_amount,
            tally.change_amount,
        ),
{
}

/// In a balanced result whose outputs the source covers, the source amount
/// is exactly what the counterparty received, the change and the fee
/// together.
pub proof fn lemma_covered_accounts_add_up(result: ProvenanceView)
    requires
        result.is_balanced(),
        result.is_covered(),
    ensures
        result.source_amount == result.counterparty_amount + result.change_amount + result.fee,
{
}

/// In a balanced result whose outputs pay out more than the source held,
/// the fee is the excess.
pub proof fn lemma_uncovered_fee_is_excess(result: ProvenanceView)
    requires
        result.is_balanced(),
        !result.is_covered(),
    ensures
        result.counterparty_amount + result.change_amount == result.source_amount + result.fee,
{
}

} // verus!
