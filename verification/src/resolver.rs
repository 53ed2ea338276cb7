//! The resolver: a state machine that asks for what it needs, one query at a
//! time, and decides on each reply.
//!
//! The resolver never talks to a node. It is started on a transaction, hands
//! out an `Action`, and is stepped with the `Event` that answers it, until
//! the action is `Done`. Whoever drives it performs the queries, strictly in
//! the order in which they are asked.
//!
//! Only the first input of the transaction is looked at: a transaction with
//! several inputs is resolved as if the first were its only one.

use vstd::prelude::*;
use crate::model::{
    outputs_view, DecodedTransaction, OutputDescriptor, OutputView, ResolveError, TransactionRef,
    TransactionRefView, TransactionView,
};
use crate::provenance::{address_or_empty, ProvenanceResult, ProvenanceView, Tally, TallyView};

verus! {

/// What the driver reports back to the resolver.
#[derive(Debug, Clone, PartialEq, Eq)]
pub enum Event {
    /// The transaction asked for, decoded.
    Transaction(DecodedTransaction),
    /// The node knows no such transaction.
    Unavailable,
    /// The query did not get through, or its answer could not be read.
    TransportFailed,
    /// Whether the wallet controls the address asked about.
    Ownership(bool),
    /// The ownership lookup failed.
    OwnershipFailed,
}

pub enum EventView {
    Transaction(TransactionView),
    Unavailable,
    TransportFailed,
    Ownership(bool),
    OwnershipFailed,
}

impl View for Event {
    type V = EventView;

    open spec fn view(&self) -> EventView {
        match self {
            Event::Transaction(tx) => EventView::Transaction(tx@),
            Event::Unavailable => EventView::Unavailable,
            Event::TransportFailed => EventView::TransportFailed,
            Event::Ownership(owned) => EventView::Ownership(*owned),
            Event::OwnershipFailed => EventView::OwnershipFailed,
        }
    }
}

impl EventView {
    /// Whether the event says that the wallet controls the address. Every
    /// other event, a failed lookup among them, leaves the address unowned.
    pub open spec fn confirms_ownership(self) -> bool {
        self == EventView::Ownership(true)
    }
}

/// What the resolver asks its driver to do next.
#[derive(Debug, Clone, PartialEq, Eq)]
pub enum Action {
    /// Fetch the raw transaction, decode it, and report it.
    FetchTransaction(TransactionRef),
    /// Ask the wallet whether it controls this address.
    QueryOwnership(String),
    /// Nothing more: the outcome is ready.
    Done,
}

pub enum ActionView {
    FetchTransaction(TransactionRefView),
    QueryOwnership(Seq<char>),
    Done,
}

impl View for Action {
    type V = ActionView;

    open spec fn view(&self) -> ActionView {
        match self {
            Action::FetchTransaction(tx) => ActionView::FetchTransaction(tx@),
            Action::QueryOwnership(address) => ActionView::QueryOwnership(address@),
            Action::Done => ActionView::Done,
        }
    }
}

/// The view of an outcome.
pub open spec fn outcome_view(outcome: Result<ProvenanceResult, ResolveError>) -> Result<
    ProvenanceView,
    ResolveError,
> {
    match outcome {
        Ok(result) => Ok(result@),
        Err(e) => Err(e),
    }
}

/// The resolver's state.
#[derive(Debug, PartialEq, Eq)]
pub enum Resolver {
    /// The transaction to resolve has been asked for.
    AwaitingTarget { counterparty: String },
    /// The transaction whose output the first input spends has been asked for.
    AwaitingPrevious { counterparty: String, outputs: Vec<OutputDescriptor>, index: u32 },
    /// The ownership of the address of output `pending` has been asked for.
    Classifying { counterparty: String, outputs: Vec<OutputDescriptor>, pending: usize, tally: Tally },
    /// The resolution is over.
    Finished { outcome: Result<ProvenanceResult, ResolveError> },
}

pub enum ResolverView {
    AwaitingTarget { counterparty: Seq<char> },
    AwaitingPrevious { counterparty: Seq<char>, outputs: Seq<OutputView>, index: u32 },
    Classifying { counterparty: Seq<char>, outputs: Seq<OutputView>, pending: int, tally: TallyView },
    Finished { outcome: Result<ProvenanceView, ResolveError> },
}

impl View for Resolver {
    type V = ResolverView;

    open spec fn view(&self) -> ResolverView {
        match self {
            Resolver::AwaitingTarget { counterparty } => ResolverView::AwaitingTarget {
                counterparty: counterparty@,
            },
            Resolver::AwaitingPrevious {
                counterparty,
                outputs,
                index,
            } => ResolverView::AwaitingPrevious {
                counterparty: counterparty@,
                outputs: outputs_view(outputs@),
                index: *index,
            },
            Resolver::Classifying {
                counterparty,
                outputs,
                pending,
                tally,
            } => ResolverView::Classifying {
                counterparty: counterparty@,
                outputs: outputs_view(outputs@),
                pending: *pending as int,
                tally: tally@,
            },
            Resolver::Finished { outcome } => ResolverView::Finished {
                outcome: outcome_view(*outcome),
            },
        }
    }
}

/// Classifies the outputs from position `from` on for as long as no query is
/// needed: an output without an address is passed over, one to the
/// counterparty's address is recorded. Returns the tally and the position of
/// the first output whose owner has to be asked for, if there is one.
pub open spec fn spec_scan(
    outputs: Seq<OutputView>,
    counterparty: Seq<char>,
    from: int,
    tally: TallyView,
) -> (TallyView, Option<int>)
    decreases outputs.len() - from,
{
    if from < 0 || from >= outputs.len() {
        (tally, None)
    } else {
        match outputs[from].address {
            None => spec_scan(outputs, counterparty, from + 1, tally),
            Some(address) => if address == counterparty {
                spec_scan(
                    outputs,
                    counterparty,
                    from + 1,
                    tally.with_counterparty(address, outputs[from].amount),
                )
            } else {
                (tally, Some(from))
            },
        }
    }
}

/// The state and the action after a resolution failed with `error`.
pub open spec fn spec_fail(error: ResolveError) -> (ResolverView, ActionView) {
    (ResolverView::Finished { outcome: Err(error) }, ActionView::Done)
}

/// The state and the action once the outputs before `from` are classified:
/// either the next ownership query, or the settled result.
pub open spec fn spec_resume(
    counterparty: Seq<char>,
    outputs: Seq<OutputView>,
    from: int,
    tally: TallyView,
) -> (ResolverView, ActionView) {
    let (scanned, stop) = spec_scan(outputs, counterparty, from, tally);
    match stop {
        Some(pending) => (
            ResolverView::Classifying { counterparty, outputs, pending, tally: scanned },
            ActionView::QueryOwnership(address_or_empty(outputs[pending].address)),
        ),
        None => (ResolverView::Finished { outcome: Ok(scanned.settle()) }, ActionView::Done),
    }
}

/// What the resolver does on the reply to its request for the transaction
/// to resolve.
pub open spec fn spec_on_target(counterparty: Seq<char>, event: EventView) -> (
    ResolverView,
    ActionView,
) {
    match event {
        EventView::Transaction(tx) => if tx.inputs.len() == 0 {
            spec_fail(ResolveError::MalformedTransaction)
        } else {
            match (tx.inputs[0].prev_txid, tx.inputs[0].prev_index) {
                (Some(txid), Some(index)) => (
                    ResolverView::AwaitingPrevious { counterparty, outputs: tx.outputs, index },
                    ActionView::FetchTransaction(TransactionRefView { txid, block_hash: None }),
                ),
                _ => spec_fail(ResolveError::DanglingReference),
            }
        },
        _ => spec_fail(ResolveError::QueryTransportError),
    }
}

/// What the resolver does on the reply to its request for the transaction
/// that the first input spends from.
pub open spec fn spec_on_previous(
    counterparty: Seq<char>,
    outputs: Seq<OutputView>,
    index: u32,
    event: EventView,
) -> (ResolverView, ActionView) {
    match event {
        EventView::Transaction(previous) => if index < previous.outputs.len() {
            spec_resume(
                counterparty,
                outputs,
                0,
                TallyView::opening(previous.outputs[index as int]),
            )
        } else {
            spec_fail(ResolveError::DanglingReference)
        },
        EventView::Unavailable => spec_fail(ResolveError::DanglingReference),
        _ => spec_fail(ResolveError::QueryTransportError),
    }
}

/// What the resolver does on the reply to an ownership query. Only a reply
/// that confirms ownership makes the pending output the change output; on
/// any other the output is passed over, and the classification goes on.
pub open spec fn spec_on_ownership(
    counterparty: Seq<char>,
    outputs: Seq<OutputView>,
    pending: int,
    tally: TallyView,
    event: EventView,
) -> (ResolverView, ActionView) {
    if 0 <= pending < outputs.len() {
        let updated = if event.confirms_ownership() {
            tally.with_change(address_or_empty(outputs[pending].address), outputs[pending].amount)
        } else {
            tally
        };
        spec_resume(counterparty, outputs, pending + 1, updated)
    } else {
        (ResolverView::Finished { outcome: Ok(tally.settle()) }, ActionView::Done)
    }
}

/// One step of the resolver: the state after `event`, and what it asks next.
pub open spec fn spec_step(state: ResolverView, event: EventView) -> (ResolverView, ActionView) {
    match state {
        ResolverView::AwaitingTarget { counterparty } => spec_on_target(counterparty, event),
        ResolverView::AwaitingPrevious { counterparty, outputs, index } => spec_on_previous(
            counterparty,
            outputs,
            index,
            event,
        ),
        ResolverView::Classifying { counterparty, outputs, pending, tally } => spec_on_ownership(
            counterparty,
            outputs,
            pending,
            tally,
            event,
        ),
        ResolverView::Finished { outcome } => (state, ActionView::Done),
    }
}

/// The finished state that holds `error`.
fn fail(error: ResolveError) -> (r: (Resolver, Action))
    ensures
        (r.0@, r.1@) == spec_fail(error),
{
    (Resolver::Finished { outcome: Err(error) }, Action::Done)
}

/// Goes on classifying at output `from`, up to the next ownership query or
/// to the end of the outputs.
fn resume(counterparty: String, outputs: Vec<OutputDescriptor>, from: usize, tally: Tally) -> (r: (
    Resolver,
    Action,
))
    requires
        from <= outputs.len(),
    ensures
        (r.0@, r.1@) == spec_resume(counterparty@, outputs_view(outputs@), from as int, tally@),
{
    let ghost views = outputs_view(outputs@);
    let mut found = tally;
    let mut i: usize = from;
    while i < outputs.len()
        invariant
            from <= i <= outputs.len(),
            views == outputs_view(outputs@),
            spec_scan(views, counterparty@, i as int, found@) == spec_scan(
                views,
                counterparty@,
                from as int,
                tally@,
            ),
        decreases outputs.len() - i,
    {
        assert(views[i as int] == outputs[i as int]@);
        let ghost before = found@;
        let mut ask: Option<String> = None;
        match &outputs[i].address {
            None => {},
            Some(address) => {
                if *address == counterparty {
                    found.set_counterparty(address, outputs[i].amount);
                } else {
                    ask = Some(address.clone());
                }
            },
        }
        assert(match ask {
            Some(address) => before == found@ && views[i as int].address == Some(address@)
                && address@ != counterparty@,
            None => spec_scan(views, counterparty@, i + 1, found@) == spec_scan(
                views,
                counterparty@,
                i as int,
                before,
            ),
        });
        match ask {
            Some(address) => {
                return (
                    Resolver::Classifying { counterparty, outputs, pending: i, tally: found },
                    Action::QueryOwnership(address),
                );
            },
            None => {},
        }
        i = i + 1;
    }
    (Resolver::Finished { outcome: Ok(found.settle()) }, Action::Done)
}

impl Resolver {
    /// Starts the resolution of `tx`, a payment to the address `counterparty`.
    /// The first thing asked for is the transaction itself.
    pub fn start(tx: TransactionRef, counterparty: String) -> (r: (Resolver, Action))
        ensures
            r.0@ == (ResolverView::AwaitingTarget { counterparty: counterparty@ }),
            r.1@ == ActionView::FetchTransaction(tx@),
    {
        (Resolver::AwaitingTarget { counterparty }, Action::FetchTransaction(tx))
    }

    /// Takes the reply to the last action and decides what comes next.
    pub fn step(self, event: Event) -> (r: (Resolver, Action))
        ensures
            (r.0@, r.1@) == spec_step(self@, event@),
    {
        match self {
            Resolver::AwaitingTarget { counterparty } => Self::on_target(counterparty, event),
            Resolver::AwaitingPrevious { counterparty, outputs, index } => Self::on_previous(
                counterparty,
                outputs,
                index,
                event,
            ),
            Resolver::Classifying { counterparty, outputs, pending, tally } => Self::on_ownership(
                counterparty,
                outputs,
                pending,
                tally,
                event,
            ),
            Resolver::Finished { outcome } => (Resolver::Finished { outcome }, Action::Done),
        }
    }

    /// Decides on the reply to the request for the transaction to resolve.
    pub fn on_target(counterparty: String, event: Event) -> (r: (Resolver, Action))
        ensures
            (r.0@, r.1@) == spec_on_target(counterparty@, event@),
    {
        match event {
            Event::Transaction(tx) => {
                let DecodedTransaction { inputs, outputs } = tx;
                if inputs.len() == 0 {
                    return fail(ResolveError::MalformedTransaction);
                }
                assert(tx@.inputs[0] == inputs[0]@);
                let index = inputs[0].prev_index;
                let txid = match &inputs[0].prev_txid {
                    Some(t) => Some(t.clone()),
                    None => None,
                };
                match (txid, index) {
                    (Some(txid), Some(index)) => (
                        Resolver::AwaitingPrevious { counterparty, outputs, index },
                        Action::FetchTransaction(TransactionRef::unconfirmed(txid)),
                    ),
                    _ => fail(ResolveError::DanglingReference),
                }
            },
            _ => fail(ResolveError::QueryTransportError),
        }
    }

    /// Decides on the reply to the request for the transaction that the
    /// first input spends from.
    pub fn on_previous(
        counterparty: String,
        outputs: Vec<OutputDescriptor>,
        index: u32,
        event: Event,
    ) -> (r: (Resolver, Action))
        ensures
            (r.0@, r.1@) == spec_on_previous(counterparty@, outputs_view(outputs@), index, event@),
    {
        match event {
            Event::Transaction(previous) => {
                let position = index as usize;
                if position < previous.outputs.len() {
                    assert(previous@.outputs[index as int] == previous.outputs[position as int]@);
                    let tally = Tally::open(&previous.outputs[position]);
                    resume(counterparty, outputs, 0, tally)
                } else {
                    fail(ResolveError::DanglingReference)
                }
            },
            Event::Unavailable => fail(ResolveError::DanglingReference),
            _ => fail(ResolveError::QueryTransportError),
        }
    }

    /// Decides on the reply to the ownership query for output `pending`.
    pub fn on_ownership(
        counterparty: String,
        outputs: Vec<OutputDescriptor>,
        pending: usize,
        tally: Tally,
        event: Event,
    ) -> (r: (Resolver, Action))
        ensures
            (r.0@, r.1@) == spec_on_ownership(
                counterparty@,
                outputs_view(outputs@),
                pending as int,
                tally@,
                event@,
            ),
    {
        if pending < outputs.len() {
            let mut tally = tally;
            assert(outputs_view(outputs@)[pending as int] == outputs[pending as int]@);
            let owned = match event {
                Event::Ownership(owned) => owned,
                _ => false,
            };
            if owned {
                match &outputs[pending].address {
                    Some(address) => {
                        tally.set_change(address, outputs[pending].amount);
                    },
                    None => {
                        let nowhere = String::new();
                        tally.set_change(&nowhere, outputs[pending].amount);
                    },
                }
            }
            resume(counterparty, outputs, pending + 1, tally)
        } else {
            (Resolver::Finished { outcome: Ok(tally.settle()) }, Action::Done)
        }
    }

    /// Whether the resolution is over.
    pub fn is_finished(&self) -> (finished: bool)
        ensures
            finished == (self@ is Finished),
    {
        match self {
            Resolver::Finished { .. } => true,
            _ => false,
        }
    }

    /// The outcome of a finished resolution; `None` while it is under way.
    pub fn into_outcome(self) -> (outcome: Option<Result<ProvenanceResult, ResolveError>>)
        ensures
            match outcome {
                Some(o) => self@ == (ResolverView::Finished { outcome: outcome_view(o) }),
                None => !(self@ is Finished),
            },
    {
        match self {
            Resolver::Finished { outcome } => Some(outcome),
            _ => None,
        }
    }
}

} // verus!
