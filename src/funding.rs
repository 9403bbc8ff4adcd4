//! Choice of the unspent output that pays for the settlement.

use vstd::prelude::*;

verus! {

/// An unspent output of the miner's wallet.
pub struct Utxo {
    pub txid: String,
    pub vout: u32,
    pub amount_sat: u64,
}

/// Why no funding output could be chosen.
#[derive(Clone, Copy, PartialEq, Eq, Structural, Debug)]
pub enum FundingError {
    /// No unspent output is worth more than the minimum.
    NoQualifyingOutput,
}

/// `i` is the first output worth strictly more than `min_sat`.
pub open spec fn is_first_above(utxos: Seq<Utxo>, i: int, min_sat: u64) -> bool {
    &&& 0 <= i < utxos.len()
    &&& utxos[i].amount_sat > min_sat
    &&& forall|j: int| 0 <= j < i ==> (#[trigger] utxos[j]).amount_sat <= min_sat
}

/// Chooses the first unspent output worth strictly more than `min_sat`, and
/// fails where none is.
pub fn select_funding(utxos: &Vec<Utxo>, min_sat: u64) -> (r: Result<usize, FundingError>)
    ensures
        match r {
            Ok(i) => is_first_above(utxos@, i as int, min_sat),
            Err(e) => e == FundingError::NoQualifyingOutput && forall|j: int|
                0 <= j < utxos@.len() ==> (#[trigger] utxos@[j]).amount_sat <= min_sat,
        },
{
    let mut i: usize = 0;
    while i < utxos.len()
        invariant
            i <= utxos@.len(),
            forall|j: int| 0 <= j < i ==> (#[trigger] utxos@[j]).amount_sat <= min_sat,
        decreases utxos@.len() - i,
    {
        if utxos[i].amount_sat > min_sat {
            return Ok(i);
        }
        i = i + 1;
    }
    Err(FundingError::NoQualifyingOutput)
}

} // verus!
