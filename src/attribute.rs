//! Attribution of the confirmed transaction's amounts to the two wallets.

use vstd::prelude::*;
use crate::chain::{address_of_script, opt_text, regtest_address};

verus! {

/// One output of a transaction: its locking script and its amount in satoshis.
pub struct TxOutput {
    pub script: Vec<u8>,
    pub amount_sat: u64,
}

/// What the node answered, for one output, to "does this wallet own it".
#[derive(Clone, Copy, PartialEq, Eq, Structural)]
pub struct Ownership {
    pub by_trader: bool,
    pub by_miner: bool,
}

/// Why the confirmed transaction could not be attributed.
#[derive(Clone, Copy, PartialEq, Eq, Structural, Debug)]
pub enum AttributionError {
    /// The transaction has fewer than two outputs.
    TooFewOutputs,
    /// The ownership answers do not cover the outputs one for one.
    OwnershipMismatch,
    /// No output belongs to the trader.
    NoTraderOutput,
    /// No output belongs to the miner.
    NoMinerOutput,
    /// The first trader output is also the first miner output.
    SharedOutput,
    /// The node reported no fee for the transaction.
    MissingFee,
    /// Input, outputs and fee do not add up within the tolerance.
    Unbalanced,
    /// A script that must be attributed has no address.
    UnknownScript,
}

/// The attributed facts of one confirmed settlement.
pub struct AttributionRecord {
    pub txid: Vec<u8>,
    pub miner_in_address: String,
    pub miner_in_sat: u64,
    pub trader_index: usize,
    pub trader_address: String,
    pub trader_sat: u64,
    pub change_index: usize,
    pub change_address: String,
    pub change_sat: u64,
    pub fee_sat: i64,
    pub block_height: u64,
    pub block_hash: String,
}

impl AttributionRecord {
    /// A record names a 32-byte transaction id and two distinct outputs.
    pub open spec fn wf(&self) -> bool {
        &&& self.txid@.len() == 32
        &&& self.trader_index != self.change_index
    }
}

pub open spec fn owned(o: Ownership, by_trader: bool) -> bool {
    if by_trader {
        o.by_trader
    } else {
        o.by_miner
    }
}

/// `i` is the first position whose output the given wallet owns.
pub open spec fn is_first(owners: Seq<Ownership>, i: int, by_trader: bool) -> bool {
    &&& 0 <= i < owners.len()
    &&& owned(owners[i], by_trader)
    &&& forall|j: int| 0 <= j < i ==> !owned(#[trigger] owners[j], by_trader)
}

pub open spec fn has_owned(owners: Seq<Ownership>, by_trader: bool) -> bool {
    exists|i: int| 0 <= i < owners.len() && owned(#[trigger] owners[i], by_trader)
}

/// The first position owned by the given wallet (meaningful where there is one).
pub open spec fn first_of(owners: Seq<Ownership>, by_trader: bool) -> int {
    choose|i: int| is_first(owners, i, by_trader)
}

pub open spec fn fee_magnitude(fee: i64) -> int {
    if fee < 0 {
        -fee
    } else {
        fee as int
    }
}

/// The input pays for the two outputs and the fee, up to `tolerance` satoshis.
pub open spec fn balanced(input: u64, trader: u64, change: u64, fee: i64, tolerance: u64) -> bool {
    let paid = trader + change + fee_magnitude(fee);
    -(tolerance as int) <= input - paid <= tolerance
}

/// Why the facts cannot be attributed, checked in this order; `None` where they can.
pub open spec fn attribution_error(
    spent: TxOutput,
    outputs: Seq<TxOutput>,
    owners: Seq<Ownership>,
    fee: Option<i64>,
    tolerance: u64,
) -> Option<AttributionError> {
    if outputs.len() < 2 {
        Some(AttributionError::TooFewOutputs)
    } else if owners.len() != outputs.len() {
        Some(AttributionError::OwnershipMismatch)
    } else if !has_owned(owners, true) {
        Some(AttributionError::NoTraderOutput)
    } else if !has_owned(owners, false) {
        Some(AttributionError::NoMinerOutput)
    } else if first_of(owners, true) == first_of(owners, false) {
        Some(AttributionError::SharedOutput)
    } else if fee.is_none() {
        Some(AttributionError::MissingFee)
    } else if !balanced(
        spent.amount_sat,
        outputs[first_of(owners, true)].amount_sat,
        outputs[first_of(owners, false)].amount_sat,
        fee.unwrap(),
        tolerance,
    ) {
        Some(AttributionError::Unbalanced)
    } else if regtest_address(spent.script@).is_none() || regtest_address(
        outputs[first_of(owners, true)].script@,
    ).is_none() || regtest_address(outputs[first_of(owners, false)].script@).is_none() {
        Some(AttributionError::UnknownScript)
    } else {
        None
    }
}

/// There is at most one first position owned by a wallet.
proof fn lemma_first_unique(owners: Seq<Ownership>, i: int, by_trader: bool)
    requires
        is_first(owners, i, by_trader),
    ensures
        has_owned(owners, by_trader),
        first_of(owners, by_trader) == i,
{
    let k = first_of(owners, by_trader);
    assert(is_first(owners, k, by_trader));
    if k < i {
        assert(!owned(owners[k], by_trader));
    }
    if i < k {
        assert(!owned(owners[i], by_trader));
    }
}

/// Below any owned position there is a first owned one.
proof fn lemma_first_below(owners: Seq<Ownership>, w: int, by_trader: bool)
    requires
        0 <= w < owners.len(),
        owned(owners[w], by_trader),
    ensures
        exists|k: int| is_first(owners, k, by_trader),
    decreases w,
{
    if exists|j: int| 0 <= j < w && owned(#[trigger] owners[j], by_trader) {
        let j = choose|j: int| 0 <= j < w && owned(#[trigger] owners[j], by_trader);
        lemma_first_below(owners, j, by_trader);
    } else {
        assert(is_first(owners, w, by_trader));
    }
}

/// A wallet that owns some position owns a first one.
proof fn lemma_first_exists(owners: Seq<Ownership>, by_trader: bool)
    requires
        has_owned(owners, by_trader),
    ensures
        is_first(owners, first_of(owners, by_trader), by_trader),
{
    let w = choose|i: int| 0 <= i < owners.len() && owned(#[trigger] owners[i], by_trader);
    lemma_first_below(owners, w, by_trader);
}

/// The first position whose output the given wallet owns, if any.
fn find_first(owners: &Vec<Ownership>, by_trader: bool) -> (r: Option<usize>)
    ensures
        match r {
            Some(i) => is_first(owners@, i as int, by_trader),
            None => !has_owned(owners@, by_trader),
        },
{
    let mut i: usize = 0;
    while i < owners.len()
        invariant
            i <= owners@.len(),
            forall|j: int| 0 <= j < i ==> !owned(#[trigger] owners@[j], by_trader),
        decreases owners@.len() - i,
    {
        let o = owners[i];
        let hit = if by_trader {
            o.by_trader
        } else {
            o.by_miner
        };
        if hit {
            return Some(i);
        }
        i = i + 1;
    }
    None
}

/// Whether the input pays for the two outputs and the fee within `tolerance`.
pub fn is_balanced(input: u64, trader: u64, change: u64, fee: i64, tolerance: u64) -> (r: bool)
    ensures
        r == balanced(input, trader, change, fee, tolerance),
{
    let fee_abs: u128 = if fee < 0 {
        (0i128 - fee as i128) as u128
    } else {
        fee as u128
    };
    let paid: u128 = trader as u128 + change as u128 + fee_abs;
    let held: u128 = input as u128;
    let gap: u128 = if held >= paid {
        held - paid
    } else {
        paid - held
    };
    gap <= tolerance as u128
}

/// The address of each output's script, where it has one.
pub fn output_addresses(outputs: &Vec<TxOutput>) -> (r: Vec<Option<String>>)
    ensures
        r@.len() == outputs@.len(),
        forall|i: int|
            0 <= i < r@.len() ==> opt_text(#[trigger] r@[i]) == regtest_address(outputs@[i].script@),
{
    let mut r: Vec<Option<String>> = Vec::new();
    let mut i: usize = 0;
    while i < outputs.len()
        invariant
            i <= outputs@.len(),
            r@.len() == i,
            forall|k: int|
                0 <= k < i ==> opt_text(#[trigger] r@[k]) == regtest_address(outputs@[k].script@),
        decreases outputs@.len() - i,
    {
        r.push(address_of_script(&outputs[i].script));
        i = i + 1;
    }
    r
}

/// Attributes the confirmed transaction `txid`, which spends `spent` and pays
/// `outputs`, given the node's ownership answer for each output and the fee it
/// reported. The trader's receipt is the first output the trader owns, the
/// miner's change the first output the miner owns; they must differ, and the
/// spent amount must equal both amounts and the fee's magnitude within
/// `tolerance` satoshis.
pub fn attribute(
    txid: &Vec<u8>,
    spent: &TxOutput,
    outputs: &Vec<TxOutput>,
    owners: &Vec<Ownership>,
    fee_sat: Option<i64>,
    tolerance_sat: u64,
    block_height: u64,
    block_hash: &String,
) -> (r: Result<AttributionRecord, AttributionError>)
    requires
        txid@.len() == 32,
    ensures
        match attribution_error(*spent, outputs@, owners@, fee_sat, tolerance_sat) {
            Some(e) => r == Err::<AttributionRecord, AttributionError>(e),
            None => r is Ok,
        },
        r matches Ok(rec) ==> {
            &&& rec.wf()
            &&& rec.txid@ == txid@
            &&& rec.trader_index == first_of(owners@, true)
            &&& rec.change_index == first_of(owners@, false)
            &&& is_first(owners@, rec.trader_index as int, true)
            &&& is_first(owners@, rec.change_index as int, false)
            &&& Some(rec.miner_in_address@) == regtest_address(spent.script@)
            &&& rec.miner_in_sat == spent.amount_sat
            &&& Some(rec.trader_address@) == regtest_address(
                outputs@[rec.trader_index as int].script@,
            )
            &&& rec.trader_sat == outputs@[rec.trader_index as int].amount_sat
            &&& Some(rec.change_address@) == regtest_address(
                outputs@[rec.change_index as int].script@,
            )
            &&& rec.change_sat == outputs@[rec.change_index as int].amount_sat
            &&& fee_sat == Some(rec.fee_sat)
            &&& balanced(
                rec.miner_in_sat,
                rec.trader_sat,
                rec.change_sat,
                rec.fee_sat,
                tolerance_sat,
            )
            &&& rec.block_height == block_height
            &&& rec.block_hash@ == block_hash@
        },
{
    if outputs.len() < 2 {
        return Err(AttributionError::TooFewOutputs);
    }
    if owners.len() != outputs.len() {
        return Err(AttributionError::OwnershipMismatch);
    }
    let t = match find_first(owners, true) {
        Some(t) => t,
        None => {
            return Err(AttributionError::NoTraderOutput);
        },
    };
    proof {
        lemma_first_unique(owners@, t as int, true);
    }
    let c = match find_first(owners, false) {
        Some(c) => c,
        None => {
            return Err(AttributionError::NoMinerOutput);
        },
    };
    proof {
        lemma_first_unique(owners@, c as int, false);
    }
    if t == c {
        return Err(AttributionError::SharedOutput);
    }
    let fee = match fee_sat {
        Some(f) => f,
        None => {
            return Err(AttributionError::MissingFee);
        },
    };
    let trader = &outputs[t];
    let change = &outputs[c];
    if !is_balanced(spent.amount_sat, trader.amount_sat, change.amount_sat, fee, tolerance_sat) {
        return Err(AttributionError::Unbalanced);
    }
    let miner_in_address = match address_of_script(&spent.script) {
        Some(a) => a,
        None => {
            return Err(AttributionError::UnknownScript);
        },
    };
    let trader_address = match address_of_script(&trader.script) {
        Some(a) => a,
        None => {
            return Err(AttributionError::UnknownScript);
        },
    };
    let change_address = match address_of_script(&change.script) {
        Some(a) => a,
        None => {
            return Err(AttributionError::UnknownScript);
        },
    };
    Ok(
        AttributionRecord {
            txid: txid.clone(),
            miner_in_address,
            miner_in_sat: spent.amount_sat,
            trader_index: t,
            trader_address,
            trader_sat: trader.amount_sat,
            change_index: c,
            change_address,
            change_sat: change.amount_sat,
            fee_sat: fee,
            block_height,
            block_hash: block_hash.clone(),
        },
    )
}

/// For every attributable transaction, the trader receipt and the miner change
/// are two distinct outputs of it; where it has more than two outputs, the
/// pair leaves at least one output unattributed.
pub proof fn lemma_attribution_complete(
    spent: TxOutput,
    outputs: Seq<TxOutput>,
    owners: Seq<Ownership>,
    fee: Option<i64>,
    tolerance: u64,
)
    requires
        attribution_error(spent, outputs, owners, fee, tolerance).is_none(),
    ensures
        ({
            let t = first_of(owners, true);
            let c = first_of(owners, false);
            let all = Set::new(|i: int| 0 <= i < outputs.len());
            &&& t != c
            &&& set![t, c].subset_of(all)
            &&& outputs.len() > 2 ==> set![t, c] != all
        }),
{
    lemma_first_exists(owners, true);
    lemma_first_exists(owners, false);
    let t = first_of(owners, true);
    let c = first_of(owners, false);
    let all = Set::new(|i: int| 0 <= i < outputs.len());
    if outputs.len() > 2 {
        let k: int = if t != 0 && c != 0 {
            0
        } else if t != 1 && c != 1 {
            1
        } else {
            2
        };
        assert(all.contains(k));
        assert(!set![t, c].contains(k));
    }
}

} // verus!
