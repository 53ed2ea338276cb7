//! The summary of a resolved payment: ten lines of text in a fixed order.
//!
//! The order of the lines and the form of each amount are what a reader of
//! the summary relies on. The source and the counterparty amount are written
//! in the short form, the change and the fee always with eight fractional
//! digits.

use vstd::prelude::*;
use vstd::string::*;
use crate::amount::{
    decimal, format_amount, format_decimal, format_fixed, spec_amount, spec_fixed,
};
use crate::model::TransactionRef;
use crate::provenance::{ProvenanceResult, ProvenanceView};

verus! {

/// A line of the summary: the text and a line feed.
pub open spec fn spec_line(text: Seq<char>) -> Seq<char> {
    text.push('\n')
}

/// The ten texts of a summary, in order: the transaction id; the source
/// address and amount; the counterparty's address and amount; the change
/// address and amount; the fee; the height and the hash of the confirming
/// block.
pub open spec fn spec_summary_fields(
    txid: Seq<char>,
    result: ProvenanceView,
    block_height: u64,
    block_hash: Seq<char>,
) -> Seq<Seq<char>> {
    seq![
        txid,
        result.source_address,
        spec_amount(result.source_amount as nat),
        result.counterparty_address,
        spec_amount(result.counterparty_amount as nat),
        result.change_address,
        spec_fixed(result.change_amount as nat),
        spec_fixed(result.fee as nat),
        decimal(block_height as nat),
        block_hash,
    ]
}

/// The first `n` of `fields`, one line each.
pub open spec fn spec_lines(fields: Seq<Seq<char>>, n: nat) -> Seq<char>
    decreases n,
{
    if n == 0 || n > fields.len() {
        Seq::empty()
    } else {
        spec_lines(fields, (n - 1) as nat) + spec_line(fields[n - 1])
    }
}

/// The summary as one text.
pub open spec fn spec_summary(
    txid: Seq<char>,
    result: ProvenanceView,
    block_height: u64,
    block_hash: Seq<char>,
) -> Seq<char> {
    spec_lines(spec_summary_fields(txid, result, block_height, block_hash), 10)
}

/// Appends `text` to `buf` as a line.
fn push_line(buf: &mut String, text: &str)
    ensures
        final(buf)@ == old(buf)@ + spec_line(text@),
{
    proof {
        reveal_strlit("\n");
    }
    buf.append(text);
    buf.append("\n");
    assert(buf@ =~= old(buf)@ + spec_line(text@));
}

/// Writes the summary of the confirmed transaction `tx`, resolved to
/// `result` and held by a block at `block_height`. A transaction without a
/// block has no summary.
pub fn render_summary(tx: &TransactionRef, result: &ProvenanceResult, block_height: u64) -> (text:
    Option<String>)
    ensures
        match text {
            Some(t) => tx@.block_hash matches Some(hash) && t@ == spec_summary(
                tx@.txid,
                result@,
                block_height,
                hash,
            ),
            None => tx@.block_hash.is_none(),
        },
{
    match &tx.block_hash {
        None => None,
        Some(block_hash) => {
            let ghost fields = spec_summary_fields(tx@.txid, result@, block_height, block_hash@);
            let mut text = String::new();
            assert(text@ =~= spec_lines(fields, 0));
            push_line(&mut text, tx.txid.as_str());
            assert(text@ =~= spec_lines(fields, 1));
            push_line(&mut text, result.source_address.as_str());
            assert(text@ =~= spec_lines(fields, 2));
            let source_amount = format_amount(result.source_amount as u128);
            push_line(&mut text, source_amount.as_str());
            assert(text@ =~= spec_lines(fields, 3));
            push_line(&mut text, result.counterparty_address.as_str());
            assert(text@ =~= spec_lines(fields, 4));
            let counterparty_amount = format_amount(result.counterparty_amount as u128);
            push_line(&mut text, counterparty_amount.as_str());
            assert(text@ =~= spec_lines(fields, 5));
            push_line(&mut text, result.change_address.as_str());
            assert(text@ =~= spec_lines(fields, 6));
            let change_amount = format_fixed(result.change_amount as u128);
            push_line(&mut text, change_amount.as_str());
            assert(text@ =~= spec_lines(fields, 7));
            let fee = format_fixed(result.fee);
            push_line(&mut text, fee.as_str());
            assert(text@ =~= spec_lines(fields, 8));
            let height = format_decimal(block_height as u128);
            push_line(&mut text, height.as_str());
            assert(text@ =~= spec_lines(fields, 9));
            push_line(&mut text, block_hash.as_str());
            assert(text@ =~= spec_lines(fields, 10));
            Some(text)
        },
    }
}

} // verus!
