//! The ten lines of the settlement report.

use vstd::prelude::*;
use crate::attribute::AttributionRecord;
use crate::chain::{format_btc, format_signed_btc, format_txid};
use crate::text::{btc_text, decimal, decimal_text, signed_btc_text, txid_text};

verus! {

/// The report's lines, in order: transaction id, miner input address and
/// amount, trader output address and amount, miner change address and amount,
/// fee, block height and block hash. Amounts are written in bitcoins.
pub open spec fn report_spec(rec: AttributionRecord) -> Seq<Seq<char>> {
    seq![
        txid_text(rec.txid@),
        rec.miner_in_address@,
        btc_text(rec.miner_in_sat),
        rec.trader_address@,
        btc_text(rec.trader_sat),
        rec.change_address@,
        btc_text(rec.change_sat),
        signed_btc_text(rec.fee_sat),
        decimal(rec.block_height as nat),
        rec.block_hash@,
    ]
}

/// Writes the record as the ten lines of the report.
pub fn report_lines(rec: &AttributionRecord) -> (r: Vec<String>)
    requires
        rec.wf(),
    ensures
        r@.len() == 10,
        forall|i: int| 0 <= i < 10 ==> (#[trigger] r@[i])@ == report_spec(*rec)[i],
{
    let mut r: Vec<String> = Vec::new();
    r.push(format_txid(&rec.txid));
    r.push(rec.miner_in_address.clone());
    r.push(format_btc(rec.miner_in_sat));
    r.push(rec.trader_address.clone());
    r.push(format_btc(rec.trader_sat));
    r.push(rec.change_address.clone());
    r.push(format_btc(rec.change_sat));
    r.push(format_signed_btc(rec.fee_sat));
    r.push(decimal_text(rec.block_height));
    r.push(rec.block_hash.clone());
    r
}

} // verus!
