use tx_provenance::amount::format_fixed;
use tx_provenance::model::{
    DecodedTransaction, InputReference, OutputDescriptor, ResolveError, TransactionRef,
};
use tx_provenance::provenance::{ProvenanceResult, Tally};
use tx_provenance::resolver::{Action, Event, Resolver};

fn output(address: &str, amount: u64) -> OutputDescriptor {
    OutputDescriptor { address: Some(address.to_string()), amount }
}

fn spending(txid: &str, index: u32, outputs: Vec<OutputDescriptor>) -> DecodedTransaction {
    DecodedTransaction {
        inputs: vec![InputReference {
            prev_txid: Some(txid.to_string()),
            prev_index: Some(index),
        }],
        outputs,
    }
}

fn coinbase(outputs: Vec<OutputDescriptor>) -> DecodedTransaction {
    DecodedTransaction {
        inputs: vec![InputReference { prev_txid: None, prev_index: None }],
        outputs,
    }
}

fn confirmed(txid: &str, block: &str) -> TransactionRef {
    TransactionRef { txid: txid.to_string(), block_hash: Some(block.to_string()) }
}

/// Drives a resolver: the two transactions are served by id, and an address
/// is owned if `owned` lists it, fails to be looked up if `failing` does.
fn drive(
    target: &DecodedTransaction,
    previous: Option<&DecodedTransaction>,
    counterparty: &str,
    owned: &[&str],
    failing: &[&str],
) -> (Result<ProvenanceResult, ResolveError>, Vec<String>) {
    let mut asked = Vec::new();
    let (mut state, mut action) =
        Resolver::start(confirmed("target", "block"), counterparty.to_string());
    for _ in 0..100 {
        let event = match &action {
            Action::FetchTransaction(tx) => {
                asked.push(format!("fetch {}", tx.txid));
                if tx.txid == "target" {
                    Event::Transaction(target.clone())
                } else {
                    match previous {
                        Some(p) => Event::Transaction(p.clone()),
                        None => Event::Unavailable,
                    }
                }
            }
            Action::QueryOwnership(address) => {
                asked.push(format!("owner {}", address));
                if failing.contains(&address.as_str()) {
                    Event::OwnershipFailed
                } else {
                    Event::Ownership(owned.contains(&address.as_str()))
                }
            }
            Action::Done => break,
        };
        let next = state.step(event);
        state = next.0;
        action = next.1;
    }
    assert_eq!(action, Action::Done);
    assert!(state.is_finished());
    (state.into_outcome().expect("a finished resolver has an outcome"), asked)
}

#[test]
fn payment_with_change_end_to_end() {
    let previous = spending("older", 0, vec![output("S", 5_000_000_000)]);
    let target = spending("prev", 0, vec![output("A", 2_000_000_000), output("B", 2_999_990_000)]);
    let (outcome, asked) = drive(&target, Some(&previous), "A", &["B"], &[]);
    let result = outcome.unwrap();
    assert_eq!(
        result,
        ProvenanceResult {
            source_address: "S".to_string(),
            source_amount: 5_000_000_000,
            counterparty_address: "A".to_string(),
            counterparty_amount: 2_000_000_000,
            change_address: "B".to_string(),
            change_amount: 2_999_990_000,
            fee: 10_000,
        }
    );
    assert_eq!(format_fixed(result.fee), "0.00010000");
    assert_eq!(asked, vec!["fetch target", "fetch prev", "owner B"]);
}

#[test]
fn amounts_add_up_to_the_source() {
    let previous = spending("older", 0, vec![output("X", 1), output("S", 123_456_789)]);
    let target = spending("prev", 1, vec![output("B", 23_456_000), output("A", 100_000_000)]);
    let (outcome, _) = drive(&target, Some(&previous), "A", &["B"], &[]);
    let r = outcome.unwrap();
    assert_eq!(r.source_address, "S");
    assert_eq!(r.source_amount, 123_456_789);
    assert_eq!(r.counterparty_amount, 100_000_000);
    assert_eq!(r.change_amount, 23_456_000);
    assert_eq!(r.fee, 789);
    assert_eq!(
        r.source_amount as u128,
        r.counterparty_amount as u128 + r.change_amount as u128 + r.fee
    );
}

#[test]
fn missing_previous_transaction_is_a_dangling_reference() {
    let target = spending("prev", 0, vec![output("A", 1)]);
    let (outcome, asked) = drive(&target, None, "A", &[], &[]);
    assert_eq!(outcome, Err(ResolveError::DanglingReference));
    assert_eq!(asked, vec!["fetch target", "fetch prev"]);
}

#[test]
fn previous_output_index_out_of_range_is_a_dangling_reference() {
    let previous = spending("older", 0, vec![output("S", 5), output("T", 6)]);
    let target = spending("prev", 2, vec![output("A", 1)]);
    let (outcome, _) = drive(&target, Some(&previous), "A", &[], &[]);
    assert_eq!(outcome, Err(ResolveError::DanglingReference));
    let last = spending("prev", 1, vec![output("A", 1)]);
    let (found, _) = drive(&last, Some(&previous), "A", &[], &[]);
    assert_eq!(found.unwrap().source_address, "T");
}

#[test]
fn input_without_previous_output_is_a_dangling_reference() {
    let target = coinbase(vec![output("A", 1)]);
    let (outcome, asked) = drive(&target, None, "A", &[], &[]);
    assert_eq!(outcome, Err(ResolveError::DanglingReference));
    assert_eq!(asked, vec!["fetch target"]);
    let half = DecodedTransaction {
        inputs: vec![InputReference { prev_txid: Some("prev".to_string()), prev_index: None }],
        outputs: vec![],
    };
    let (state, action) = Resolver::on_target("A".to_string(), Event::Transaction(half));
    assert_eq!(action, Action::Done);
    assert_eq!(state.into_outcome(), Some(Err(ResolveError::DanglingReference)));
}

#[test]
fn transaction_without_inputs_is_malformed() {
    let target = DecodedTransaction { inputs: vec![], outputs: vec![output("A", 1)] };
    let (outcome, asked) = drive(&target, None, "A", &[], &[]);
    assert_eq!(outcome, Err(ResolveError::MalformedTransaction));
    assert_eq!(asked, vec!["fetch target"]);
}

#[test]
fn failed_ownership_lookup_does_not_abort() {
    let previous = spending("older", 0, vec![output("S", 1_000)]);
    let target = spending(
        "prev",
        0,
        vec![output("F", 100), output("A", 300), output("B", 500)],
    );
    let (outcome, asked) = drive(&target, Some(&previous), "A", &["B", "F"], &["F"]);
    let r = outcome.unwrap();
    assert_eq!(r.counterparty_amount, 300);
    assert_eq!(r.change_address, "B");
    assert_eq!(r.change_amount, 500);
    assert_eq!(r.fee, 200);
    assert_eq!(asked, vec!["fetch target", "fetch prev", "owner F", "owner B"]);
}

#[test]
fn failed_lookup_of_the_only_candidate_leaves_no_change() {
    let previous = spending("older", 0, vec![output("S", 1_000)]);
    let target = spending("prev", 0, vec![output("A", 300), output("B", 500)]);
    let (outcome, _) = drive(&target, Some(&previous), "A", &["B"], &["B"]);
    let r = outcome.unwrap();
    assert_eq!(r.change_address, "");
    assert_eq!(r.change_amount, 0);
    assert_eq!(r.fee, 700);
}

#[test]
fn unowned_outputs_are_ignored() {
    let previous = spending("older", 0, vec![output("S", 1_000)]);
    let target = spending("prev", 0, vec![output("C", 10), output("A", 300), output("D", 20)]);
    let (outcome, asked) = drive(&target, Some(&previous), "A", &[], &[]);
    let r = outcome.unwrap();
    assert_eq!(r.counterparty_address, "A");
    assert_eq!(r.change_address, "");
    assert_eq!(r.change_amount, 0);
    assert_eq!(r.fee, 700);
    assert_eq!(asked, vec!["fetch target", "fetch prev", "owner C", "owner D"]);
}

#[test]
fn last_change_output_wins() {
    let previous = spending("older", 0, vec![output("S", 1_000)]);
    let target = spending(
        "prev",
        0,
        vec![output("B1", 100), output("A", 300), output("B2", 200)],
    );
    let (outcome, _) = drive(&target, Some(&previous), "A", &["B1", "B2"], &[]);
    let r = outcome.unwrap();
    assert_eq!(r.change_address, "B2");
    assert_eq!(r.change_amount, 200);
    assert_eq!(r.fee, 500);
}

#[test]
fn last_counterparty_output_wins_and_is_never_looked_up() {
    let previous = spending("older", 0, vec![output("S", 1_000)]);
    let target = spending("prev", 0, vec![output("A", 100), output("A", 250)]);
    let (outcome, asked) = drive(&target, Some(&previous), "A", &["A"], &[]);
    let r = outcome.unwrap();
    assert_eq!(r.counterparty_amount, 250);
    assert_eq!(r.change_amount, 0);
    assert_eq!(r.fee, 750);
    assert_eq!(asked, vec!["fetch target", "fetch prev"]);
}

#[test]
fn outputs_without_address_are_passed_over() {
    let previous = spending("older", 0, vec![OutputDescriptor { address: None, amount: 900 }]);
    let target = spending(
        "prev",
        0,
        vec![OutputDescriptor { address: None, amount: 5 }, output("A", 300)],
    );
    let (outcome, asked) = drive(&target, Some(&previous), "A", &[], &[]);
    let r = outcome.unwrap();
    assert_eq!(r.source_address, "");
    assert_eq!(r.source_amount, 900);
    assert_eq!(r.counterparty_amount, 300);
    assert_eq!(r.fee, 600);
    assert_eq!(asked, vec!["fetch target", "fetch prev"]);
}

#[test]
fn transaction_without_outputs_resolves_to_the_source_alone() {
    let previous = spending("older", 0, vec![output("S", 900)]);
    let target = spending("prev", 0, vec![]);
    let (outcome, _) = drive(&target, Some(&previous), "A", &[], &[]);
    assert_eq!(
        outcome,
        Ok(ProvenanceResult {
            source_address: "S".to_string(),
            source_amount: 900,
            counterparty_address: String::new(),
            counterparty_amount: 0,
            change_address: String::new(),
            change_amount: 0,
            fee: 900,
        })
    );
}

#[test]
fn only_the_first_input_is_followed() {
    let previous = spending("older", 0, vec![output("S", 900), output("T", 50)]);
    let mut target = spending("prev", 0, vec![output("A", 300)]);
    target.inputs.push(InputReference {
        prev_txid: Some("other".to_string()),
        prev_index: Some(1),
    });
    let (outcome, asked) = drive(&target, Some(&previous), "A", &[], &[]);
    assert_eq!(outcome.unwrap().source_amount, 900);
    assert_eq!(asked, vec!["fetch target", "fetch prev"]);
}

#[test]
fn overspending_outputs_give_the_excess_as_fee() {
    let previous = spending("older", 0, vec![output("S", 100)]);
    let target = spending("prev", 0, vec![output("A", 300), output("B", 50)]);
    let (outcome, _) = drive(&target, Some(&previous), "A", &["B"], &[]);
    assert_eq!(outcome.unwrap().fee, 250);
}

#[test]
fn fee_of_the_largest_amounts_does_not_wrap() {
    let previous = spending("older", 0, vec![output("S", 0)]);
    let target = spending("prev", 0, vec![output("A", u64::MAX), output("B", u64::MAX)]);
    let (outcome, _) = drive(&target, Some(&previous), "A", &["B"], &[]);
    assert_eq!(outcome.unwrap().fee, 2 * (u64::MAX as u128));
}

#[test]
fn start_asks_for_the_transaction() {
    let tx = confirmed("abc", "blk");
    let (state, action) = Resolver::start(tx.clone(), "A".to_string());
    assert_eq!(action, Action::FetchTransaction(tx));
    assert_eq!(state, Resolver::AwaitingTarget { counterparty: "A".to_string() });
    assert!(!state.is_finished());
    assert_eq!(state.into_outcome(), None);
}

#[test]
fn previous_transaction_is_asked_for_without_block() {
    let target = spending("prev", 3, vec![output("A", 1)]);
    let (state, _) = Resolver::start(confirmed("t", "b"), "A".to_string());
    let (state, action) = state.step(Event::Transaction(target.clone()));
    assert_eq!(
        action,
        Action::FetchTransaction(TransactionRef { txid: "prev".to_string(), block_hash: None })
    );
    assert_eq!(
        state,
        Resolver::AwaitingPrevious {
            counterparty: "A".to_string(),
            outputs: target.outputs,
            index: 3,
        }
    );
}

#[test]
fn failure_to_fetch_is_a_transport_error() {
    for event in [
        Event::Unavailable,
        Event::TransportFailed,
        Event::Ownership(true),
        Event::OwnershipFailed,
    ] {
        let (state, _) = Resolver::start(confirmed("t", "b"), "A".to_string());
        let (state, action) = state.step(event);
        assert_eq!(action, Action::Done);
        assert_eq!(state.into_outcome(), Some(Err(ResolveError::QueryTransportError)));
    }
    for event in [Event::TransportFailed, Event::Ownership(false), Event::OwnershipFailed] {
        let (state, action) =
            Resolver::on_previous("A".to_string(), vec![output("A", 1)], 0, event);
        assert_eq!(action, Action::Done);
        assert_eq!(state.into_outcome(), Some(Err(ResolveError::QueryTransportError)));
    }
}

#[test]
fn any_reply_but_a_confirmation_leaves_the_output_unowned() {
    for event in [
        Event::Ownership(false),
        Event::OwnershipFailed,
        Event::TransportFailed,
        Event::Unavailable,
    ] {
        let tally = Tally::open(&output("S", 10));
        let (state, action) =
            Resolver::on_ownership("A".to_string(), vec![output("B", 4)], 0, tally, event);
        assert_eq!(action, Action::Done);
        let r = state.into_outcome().unwrap().unwrap();
        assert_eq!(r.change_amount, 0);
        assert_eq!(r.fee, 10);
    }
    let tally = Tally::open(&output("S", 10));
    let (state, _) = Resolver::on_ownership(
        "A".to_string(),
        vec![output("B", 4)],
        0,
        tally,
        Event::Ownership(true),
    );
    let r = state.into_outcome().unwrap().unwrap();
    assert_eq!(r.change_address, "B");
    assert_eq!(r.change_amount, 4);
    assert_eq!(r.fee, 6);
}

#[test]
fn ownership_reply_for_a_position_past_the_outputs_settles() {
    let tally = Tally::open(&output("S", 10));
    let (state, action) = Resolver::on_ownership(
        "A".to_string(),
        vec![output("B", 4)],
        1,
        tally,
        Event::Ownership(true),
    );
    assert_eq!(action, Action::Done);
    let r = state.into_outcome().unwrap().unwrap();
    assert_eq!(r.change_amount, 0);
    assert_eq!(r.fee, 10);
}

#[test]
fn finished_resolver_stays_finished() {
    let (state, _) = Resolver::start(confirmed("t", "b"), "A".to_string());
    let (state, _) = state.step(Event::TransportFailed);
    let (state, action) = state.step(Event::Transaction(spending("p", 0, vec![])));
    assert_eq!(action, Action::Done);
    assert!(state.is_finished());
    assert_eq!(state.into_outcome(), Some(Err(ResolveError::QueryTransportError)));
}

#[test]
fn tally_records_and_settles() {
    let mut tally = Tally::open(&output("S", 1_000));
    assert_eq!(tally.source_address, "S");
    assert_eq!(tally.source_amount, 1_000);
    assert_eq!(tally.counterparty_address, "");
    assert_eq!(tally.change_address, "");
    tally.set_counterparty(&"A".to_string(), 600);
    tally.set_change(&"B".to_string(), 390);
    tally.set_change(&"C".to_string(), 395);
    let r = tally.settle();
    assert_eq!(r.counterparty_address, "A");
    assert_eq!(r.counterparty_amount, 600);
    assert_eq!(r.change_address, "C");
    assert_eq!(r.change_amount, 395);
    assert_eq!(r.fee, 5);
}

#[test]
fn tally_on_an_output_without_address_has_an_empty_source() {
    let tally = Tally::open(&OutputDescriptor { address: None, amount: 3 });
    assert_eq!(tally.source_address, "");
    assert_eq!(tally.source_amount, 3);
}

#[test]
fn transaction_ref_confirmation() {
    let fresh = TransactionRef::unconfirmed("abc".to_string());
    assert_eq!(fresh.txid, "abc");
    assert_eq!(fresh.block_hash, None);
    assert!(!fresh.is_confirmed());
    assert!(confirmed("abc", "blk").is_confirmed());
}
