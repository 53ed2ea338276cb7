//! What a whole resolution amounts to.
//!
//! The resolver decides step by step. This module says in one piece what
//! comes out when it is driven to its end: `spec_resolve` gives the outcome
//! from the replies alone, `spec_converse` runs the state machine on them,
//! and `lemma_conversation_resolves` shows that the two agree. The other
//! lemmas state what follows for the outputs that end up in the result.

use vstd::prelude::*;
use crate::model::{OutputView, ResolveError};
use crate::provenance::{ProvenanceView, TallyView};
use crate::resolver::{
    spec_fail, spec_on_ownership, spec_on_previous, spec_on_target, spec_resume, spec_scan,
    spec_step, ActionView, EventView, ResolverView,
};

verus! {

/// Whether `output` goes to the counterparty's address.
pub open spec fn pays_counterparty(output: OutputView, counterparty: Seq<char>) -> bool {
    output.address == Some(counterparty)
}

/// Whether `output` returns change: it goes to an address that is not the
/// counterparty's, and `reply`, the answer to the ownership query for that
/// address, confirms that the wallet controls it.
pub open spec fn returns_change(
    output: OutputView,
    counterparty: Seq<char>,
    reply: EventView,
) -> bool {
    output.address.is_some() && !pays_counterparty(output, counterparty)
        && reply.confirms_ownership()
}

/// The tally after one more output.
pub open spec fn classify_one(
    tally: TallyView,
    output: OutputView,
    counterparty: Seq<char>,
    reply: EventView,
) -> TallyView {
    match output.address {
        None => tally,
        Some(address) => if address == counterparty {
            tally.with_counterparty(address, output.amount)
        } else if reply.confirms_ownership() {
            tally.with_change(address, output.amount)
        } else {
            tally
        },
    }
}

/// The tally after the outputs from position `from` to the last, taken in
/// order. `replies[i]` is the answer to the ownership query for output `i`;
/// it is read only where that query is made.
pub open spec fn classify(
    outputs: Seq<OutputView>,
    counterparty: Seq<char>,
    replies: Seq<EventView>,
    from: int,
    tally: TallyView,
) -> TallyView
    decreases outputs.len() - from,
{
    if from < 0 || from >= outputs.len() {
        tally
    } else {
        classify(
            outputs,
            counterparty,
            replies,
            from + 1,
            classify_one(tally, outputs[from], counterparty, replies[from]),
        )
    }
}

/// The outcome of a resolution, given the reply to the request for the
/// transaction, the reply to the request for the one that its first input
/// spends from, and the replies to the ownership queries.
pub open spec fn spec_resolve(
    counterparty: Seq<char>,
    target: EventView,
    previous: EventView,
    replies: Seq<EventView>,
) -> Result<ProvenanceView, ResolveError> {
    match target {
        EventView::Transaction(tx) => if tx.inputs.len() == 0 {
            Err(ResolveError::MalformedTransaction)
        } else if tx.inputs[0].prev_txid.is_none() || tx.inputs[0].prev_index.is_none() {
            Err(ResolveError::DanglingReference)
        } else {
            match previous {
                EventView::Transaction(spent) => if tx.inputs[0].prev_index.unwrap()
                    < spent.outputs.len() {
                    Ok(
                        classify(
                            tx.outputs,
                            counterparty,
                            replies,
                            0,
                            TallyView::opening(
                                spent.outputs[tx.inputs[0].prev_index.unwrap() as int],
                            ),
                        ).settle(),
                    )
                } else {
                    Err(ResolveError::DanglingReference)
                },
                EventView::Unavailable => Err(ResolveError::DanglingReference),
                _ => Err(ResolveError::QueryTransportError),
            }
        },
        _ => Err(ResolveError::QueryTransportError),
    }
}

/// The state after at most `fuel` ownership queries, each answered as
/// `replies` has it.
pub open spec fn spec_run(state: ResolverView, replies: Seq<EventView>, fuel: nat) -> ResolverView
    decreases fuel,
{
    if fuel == 0 {
        state
    } else {
        match state {
            ResolverView::Classifying { pending, .. } => spec_run(
                spec_step(state, replies[pending]).0,
                replies,
                (fuel - 1) as nat,
            ),
            _ => state,
        }
    }
}

/// The state in which a resolution ends when the driver answers as the
/// arguments have it: first with `target`, then, if asked, with `previous`,
/// then with the replies to at most `fuel` ownership queries.
pub open spec fn spec_converse(
    counterparty: Seq<char>,
    target: EventView,
    previous: EventView,
    replies: Seq<EventView>,
    fuel: nat,
) -> ResolverView {
    let asked = spec_step(ResolverView::AwaitingTarget { counterparty }, target).0;
    let opened = if asked is AwaitingPrevious {
        spec_step(asked, previous).0
    } else {
        asked
    };
    spec_run(opened, replies, fuel)
}

/// Scanning and then classifying the rest is classifying from the start of
/// the scan: the outputs that a scan passes need no reply.
proof fn lemma_scan_then_classify(
    outputs: Seq<OutputView>,
    counterparty: Seq<char>,
    replies: Seq<EventView>,
    from: int,
    tally: TallyView,
)
    requires
        0 <= from <= outputs.len(),
    ensures
        ({
            let (scanned, stop) = spec_scan(outputs, counterparty, from, tally);
            match stop {
                Some(pending) => from <= pending < outputs.len() && classify(
                    outputs,
                    counterparty,
                    replies,
                    from,
                    tally,
                ) == classify(outputs, counterparty, replies, pending, scanned)
                    && outputs[pending].address.is_some() && !pays_counterparty(
                    outputs[pending],
                    counterparty,
                ),
                None => classify(outputs, counterparty, replies, from, tally) == scanned,
            }
        }),
    decreases outputs.len() - from,
{
    if from < outputs.len() {
        match outputs[from].address {
            None => {
                lemma_scan_then_classify(outputs, counterparty, replies, from + 1, tally);
            },
            Some(address) => {
                if address == counterparty {
                    lemma_scan_then_classify(
                        outputs,
                        counterparty,
                        replies,
                        from + 1,
                        tally.with_counterparty(address, outputs[from].amount),
                    );
                }
            },
        }
    }
}

/// Once the outputs before `from` are classified into `tally`, answering the
/// remaining ownership queries ends in the settled classification of all
/// outputs.
pub proof fn lemma_run_classifies(
    counterparty: Seq<char>,
    outputs: Seq<OutputView>,
    replies: Seq<EventView>,
    from: int,
    tally: TallyView,
    fuel: nat,
)
    requires
        0 <= from <= outputs.len(),
        fuel >= outputs.len() - from,
    ensures
        spec_run(spec_resume(counterparty, outputs, from, tally).0, replies, fuel) == (
        ResolverView::Finished {
            outcome: Ok(classify(outputs, counterparty, replies, from, tally).settle()),
        }),
    decreases outputs.len() - from,
{
    lemma_scan_then_classify(outputs, counterparty, replies, from, tally);
    let (scanned, stop) = spec_scan(outputs, counterparty, from, tally);
    let state = spec_resume(counterparty, outputs, from, tally).0;
    match stop {
        Some(pending) => {
            let reply = replies[pending];
            let updated = classify_one(scanned, outputs[pending], counterparty, reply);
            assert(spec_step(state, reply) == spec_on_ownership(
                counterparty,
                outputs,
                pending,
                scanned,
                reply,
            ));
            assert(spec_step(state, reply).0 == spec_resume(
                counterparty,
                outputs,
                pending + 1,
                updated,
            ).0);
            lemma_run_classifies(
                counterparty,
                outputs,
                replies,
                pending + 1,
                updated,
                (fuel - 1) as nat,
            );
            assert(classify(outputs, counterparty, replies, pending, scanned) == classify(
                outputs,
                counterparty,
                replies,
                pending + 1,
                updated,
            ));
            assert(spec_run(state, replies, fuel) == spec_run(
                spec_step(state, reply).0,
                replies,
                (fuel - 1) as nat,
            ));
        },
        None => {
            assert(spec_run(state, replies, fuel) == state);
        },
    }
}

/// Driven to its end, the resolver finishes with the outcome that
/// `spec_resolve` gives for the same replies. As many ownership queries as
/// the transaction has outputs are enough.
pub proof fn lemma_conversation_resolves(
    counterparty: Seq<char>,
    target: EventView,
    previous: EventView,
    replies: Seq<EventView>,
    fuel: nat,
)
    requires
        target matches EventView::Transaction(tx) ==> fuel >= tx.outputs.len(),
    ensures
        spec_converse(counterparty, target, previous, replies, fuel) == (ResolverView::Finished {
            outcome: spec_resolve(counterparty, target, previous, replies),
        }),
{
    let start = ResolverView::AwaitingTarget { counterparty };
    let asked = spec_step(start, target).0;
    assert(spec_step(start, target) == spec_on_target(counterparty, target));
    match target {
        EventView::Transaction(tx) => {
            if tx.inputs.len() > 0 && tx.inputs[0].prev_txid.is_some()
                && tx.inputs[0].prev_index.is_some() {
                let index = tx.inputs[0].prev_index.unwrap();
                assert(asked == (ResolverView::AwaitingPrevious {
                    counterparty,
                    outputs: tx.outputs,
                    index,
                }));
                assert(spec_step(asked, previous) == spec_on_previous(
                    counterparty,
                    tx.outputs,
                    index,
                    previous,
                ));
                match previous {
                    EventView::Transaction(spent) => {
                        if index < spent.outputs.len() {
                            lemma_run_classifies(
                                counterparty,
                                tx.outputs,
                                replies,
                                0,
                                TallyView::opening(spent.outputs[index as int]),
                                fuel,
                            );
                        } else {
                            lemma_finished_stays(spec_fail(ResolveError::DanglingReference).0, replies, fuel);
                        }
                    },
                    EventView::Unavailable => {
                        lemma_finished_stays(spec_fail(ResolveError::DanglingReference).0, replies, fuel);
                    },
                    _ => {
                        lemma_finished_stays(spec_fail(ResolveError::QueryTransportError).0, replies, fuel);
                    },
                }
            } else {
                lemma_finished_stays(asked, replies, fuel);
            }
        },
        _ => {
            lemma_finished_stays(asked, replies, fuel);
        },
    }
}

/// A finished resolver stays as it is, whatever it is told.
pub proof fn lemma_finished_stays(state: ResolverView, replies: Seq<EventView>, fuel: nat)
    requires
        state is Finished,
    ensures
        spec_run(state, replies, fuel) == state,
        forall|event: EventView| #[trigger] spec_step(state, event) == (state, ActionView::Done),
{
}

/// Classifying outputs leaves the source as the tally has it.
pub proof fn lemma_classify_keeps_source(
    outputs: Seq<OutputView>,
    counterparty: Seq<char>,
    replies: Seq<EventView>,
    from: int,
    tally: TallyView,
)
    ensures
        classify(outputs, counterparty, replies, from, tally).source_address
            == tally.source_address,
        classify(outputs, counterparty, replies, from, tally).source_amount
            == tally.source_amount,
    decreases outputs.len() - from,
{
    if 0 <= from < outputs.len() {
        lemma_classify_keeps_source(
            outputs,
            counterparty,
            replies,
            from + 1,
            classify_one(tally, outputs[from], counterparty, replies[from]),
        );
    }
}

/// Where no output from `from` on pays the counterparty, the counterparty's
/// part of the tally stays as it is.
pub proof fn lemma_no_counterparty_output(
    outputs: Seq<OutputView>,
    counterparty: Seq<char>,
    replies: Seq<EventView>,
    from: int,
    tally: TallyView,
)
    requires
        0 <= from,
        forall|k: int|
            from <= k < outputs.len() ==> !pays_counterparty(#[trigger] outputs[k], counterparty),
    ensures
        classify(outputs, counterparty, replies, from, tally).counterparty_address
            == tally.counterparty_address,
        classify(outputs, counterparty, replies, from, tally).counterparty_amount
            == tally.counterparty_amount,
    decreases outputs.len() - from,
{
    if from < outputs.len() {
        assert(!pays_counterparty(outputs[from], counterparty));
        lemma_no_counterparty_output(
            outputs,
            counterparty,
            replies,
            from + 1,
            classify_one(tally, outputs[from], counterparty, replies[from]),
        );
    }
}

/// Where several outputs pay the counterparty, the last of them is the one
/// that the tally holds.
pub proof fn lemma_last_counterparty_output_wins(
    outputs: Seq<OutputView>,
    counterparty: Seq<char>,
    replies: Seq<EventView>,
    from: int,
    tally: TallyView,
    last: int,
)
    requires
        0 <= from <= last < outputs.len(),
        pays_counterparty(outputs[last], counterparty),
        forall|k: int|
            last < k < outputs.len() ==> !pays_counterparty(#[trigger] outputs[k], counterparty),
    ensures
        classify(outputs, counterparty, replies, from, tally).counterparty_address
            == counterparty,
        classify(outputs, counterparty, replies, from, tally).counterparty_amount
            == outputs[last].amount,
    decreases last - from,
{
    let next = classify_one(tally, outputs[from], counterparty, replies[from]);
    if from == last {
        lemma_no_counterparty_output(outputs, counterparty, replies, last + 1, next);
    } else {
        lemma_last_counterparty_output_wins(outputs, counterparty, replies, from + 1, next, last);
    }
}

/// Where no output from `from` on returns change, the change part of the
/// tally stays as it is.
pub proof fn lemma_no_change_output(
    outputs: Seq<OutputView>,
    counterparty: Seq<char>,
    replies: Seq<EventView>,
    from: int,
    tally: TallyView,
)
    requires
        0 <= from,
        forall|k: int|
            from <= k < outputs.len() ==> !returns_change(
                #[trigger] outputs[k],
                counterparty,
                replies[k],
            ),
    ensures
        classify(outputs, counterparty, replies, from, tally).change_address
            == tally.change_address,
        classify(outputs, counterparty, replies, from, tally).change_amount
            == tally.change_amount,
    decreases outputs.len() - from,
{
    if from < outputs.len() {
        assert(!returns_change(outputs[from], counterparty, replies[from]));
        lemma_no_change_output(
            outputs,
            counterparty,
            replies,
            from + 1,
            classify_one(tally, outputs[from], counterparty, replies[from]),
        );
    }
}

/// Where several outputs return change, the last of them is the one that the
/// tally holds.
pub proof fn lemma_last_change_output_wins(
    outputs: Seq<OutputView>,
    counterparty: Seq<char>,
    replies: Seq<EventView>,
    from: int,
    tally: TallyView,
    last: int,
)
    requires
        0 <= from <= last < outputs.len(),
        returns_change(outputs[last], counterparty, replies[last]),
        forall|k: int|
            last < k < outputs.len() ==> !returns_change(
                #[trigger] outputs[k],
                counterparty,
                replies[k],
            ),
    ensures
        Some(classify(outputs, counterparty, replies, from, tally).change_address)
            == outputs[last].address,
        classify(outputs, counterparty, replies, from, tally).change_amount
            == outputs[last].amount,
    decreases last - from,
{
    let next = classify_one(tally, outputs[from], counterparty, replies[from]);
    if from == last {
        lemma_no_change_output(outputs, counterparty, replies, last + 1, next);
    } else {
        lemma_last_change_output_wins(outputs, counterparty, replies, from + 1, next, last);
    }
}

/// Only whether a reply confirms ownership matters: a failed lookup counts
/// as much as the answer that the wallet does not control the address.
pub proof fn lemma_only_confirmation_counts(
    outputs: Seq<OutputView>,
    counterparty: Seq<char>,
    replies: Seq<EventView>,
    others: Seq<EventView>,
    from: int,
    tally: TallyView,
)
    requires
        0 <= from,
        forall|k: int|
            from <= k < outputs.len() ==> (#[trigger] replies[k]).confirms_ownership() == (
            #[trigger] others[k]).confirms_ownership(),
    ensures
        classify(outputs, counterparty, replies, from, tally) == classify(
            outputs,
            counterparty,
            others,
            from,
            tally,
        ),
    decreases outputs.len() - from,
{
    if from < outputs.len() {
        assert(replies[from].confirms_ownership() == others[from].confirms_ownership());
        lemma_only_confirmation_counts(
            outputs,
            counterparty,
            replies,
            others,
            from + 1,
            classify_one(tally, outputs[from], counterparty, replies[from]),
        );
    }
}

/// A failed ownership lookup does not end the resolution: the resolver goes
/// on exactly as if the wallet had denied ownership, with the tally
/// unchanged, and the output asked about is not taken for change.
pub proof fn lemma_failed_lookup_does_not_abort(
    counterparty: Seq<char>,
    outputs: Seq<OutputView>,
    pending: int,
    tally: TallyView,
)
    requires
        0 <= pending < outputs.len(),
    ensures
        ({
            let state = ResolverView::Classifying { counterparty, outputs, pending, tally };
            &&& spec_step(state, EventView::OwnershipFailed) == spec_resume(
                counterparty,
                outputs,
                pending + 1,
                tally,
            )
            &&& spec_step(state, EventView::OwnershipFailed) == spec_step(
                state,
                EventView::Ownership(false),
            )
            &&& !(spec_step(state, EventView::OwnershipFailed).0 matches ResolverView::Finished {
                outcome: Err(_),
            })
        }),
{
}

/// No step ends a resolution with `OwnershipQueryFailed`.
pub proof fn lemma_ownership_failure_never_surfaces(state: ResolverView, event: EventView)
    requires
        !(state is Finished),
    ensures
        spec_step(state, event).0 != (ResolverView::Finished {
            outcome: Err(ResolveError::OwnershipQueryFailed),
        }),
{
}

/// A transaction without inputs is malformed, whatever else is replied.
pub proof fn lemma_no_input_is_malformed(
    counterparty: Seq<char>,
    target: EventView,
    previous: EventView,
    replies: Seq<EventView>,
)
    requires
        target matches EventView::Transaction(tx) && tx.inputs.len() == 0,
    ensures
        spec_step(ResolverView::AwaitingTarget { counterparty }, target) == spec_fail(
            ResolveError::MalformedTransaction,
        ),
        spec_resolve(counterparty, target, previous, replies) == Err::<ProvenanceView, _>(
            ResolveError::MalformedTransaction,
        ),
{
}

/// Whether the output that the first input of `target` spends can be found
/// in `previous`, the reply to the request for the transaction that holds it.
pub open spec fn previous_output_found(target: EventView, previous: EventView) -> bool {
    match (target, previous) {
        (EventView::Transaction(tx), EventView::Transaction(spent)) => {
            &&& tx.inputs.len() > 0
            &&& tx.inputs[0].prev_txid.is_some()
            &&& tx.inputs[0].prev_index matches Some(index) && index < spent.outputs.len()
        },
        _ => false,
    }
}

/// Where the transaction has an input, but the output that its first input
/// spends cannot be found (the input names none, the node has no such
/// transaction, or that transaction has no output at the position), the
/// reference dangles.
pub proof fn lemma_unfound_previous_output_dangles(
    counterparty: Seq<char>,
    target: EventView,
    previous: EventView,
    replies: Seq<EventView>,
)
    requires
        target matches EventView::Transaction(tx) && tx.inputs.len() > 0,
        previous is Transaction || previous is Unavailable,
        !previous_output_found(target, previous),
    ensures
        spec_resolve(counterparty, target, previous, replies) == Err::<ProvenanceView, _>(
            ResolveError::DanglingReference,
        ),
{
}

/// A resolution succeeds exactly when the previous output is found; the
/// replies to the ownership queries cannot make it fail.
pub proof fn lemma_resolves_iff_previous_output_found(
    counterparty: Seq<char>,
    target: EventView,
    previous: EventView,
    replies: Seq<EventView>,
)
    ensures
        spec_resolve(counterparty, target, previous, replies).is_ok() == previous_output_found(
            target,
            previous,
        ),
{
}

/// A payment with exactly one output to the counterparty and exactly one
/// change output resolves to those two outputs and to the output that the
/// first input spends. Where that source covers what the two received, the
/// source amount is the sum of the counterparty's amount, the change and the
/// fee.
pub proof fn lemma_payment_with_change_adds_up(
    counterparty: Seq<char>,
    target: EventView,
    previous: EventView,
    replies: Seq<EventView>,
    pay: int,
    back: int,
)
    requires
        previous_output_found(target, previous),
        0 <= pay < target->Transaction_0.outputs.len(),
        0 <= back < target->Transaction_0.outputs.len(),
        forall|k: int|
            0 <= k < target->Transaction_0.outputs.len() ==> (pays_counterparty(
                #[trigger] target->Transaction_0.outputs[k],
                counterparty,
            ) <==> k == pay),
        forall|k: int|
            0 <= k < target->Transaction_0.outputs.len() ==> (returns_change(
                #[trigger] target->Transaction_0.outputs[k],
                counterparty,
                replies[k],
            ) <==> k == back),
    ensures
        ({
            let tx = target->Transaction_0;
            let spent = previous->Transaction_0;
            let source = spent.outputs[tx.inputs[0].prev_index.unwrap() as int];
            &&& spec_resolve(counterparty, target, previous, replies) matches Ok(result)
            &&& result.source_amount == source.amount
            &&& result.counterparty_address == counterparty
            &&& result.counterparty_amount == tx.outputs[pay].amount
            &&& Some(result.change_address) == tx.outputs[back].address
            &&& result.change_amount == tx.outputs[back].amount
            &&& result.is_balanced()
            &&& tx.outputs[pay].amount + tx.outputs[back].amount <= source.amount
                ==> result.source_amount == result.counterparty_amount + result.change_amount
                + result.fee
        }),
{
    let tx = target->Transaction_0;
    let spent = previous->Transaction_0;
    let opening = TallyView::opening(spent.outputs[tx.inputs[0].prev_index.unwrap() as int]);
    lemma_classify_keeps_source(tx.outputs, counterparty, replies, 0, opening);
    lemma_last_counterparty_output_wins(tx.outputs, counterparty, replies, 0, opening, pay);
    lemma_last_change_output_wins(tx.outputs, counterparty, replies, 0, opening, back);
}

} // verus!
