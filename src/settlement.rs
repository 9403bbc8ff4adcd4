//! The transfer from the miner to the trader, and its place in the next block.

use vstd::prelude::*;
use crate::chain::parse_txid;
use crate::text::{is_lower_hex, lemma_txid_text_round_trip, txid_from_text, txid_text};
use crate::funding::Utxo;

verus! {

/// A send of `amount_sat` to `recipient`, whose one input is pinned to
/// output `input_vout` of transaction `input_txid`. Fee rate and confirmation
/// target are left to the node.
pub struct SendRequest {
    pub recipient: String,
    pub amount_sat: u64,
    pub input_txid: String,
    pub input_vout: u32,
}

/// Why a send was not accepted.
#[derive(Clone, Copy, PartialEq, Eq, Structural, Debug)]
pub enum SettleError {
    /// The node did not report the send as complete.
    Incomplete,
    /// The node's transaction id is not one.
    BadTxid,
}

/// Why the settlement could not be found in the block that confirms it.
#[derive(Clone, Copy, PartialEq, Eq, Structural, Debug)]
pub enum ConfirmError {
    /// No transaction of the block has the settlement's id.
    NotInBlock,
}

/// The block mined after the send: its hash, its height as its coinbase
/// states it, and the ids of its transactions in order.
pub struct BlockFacts {
    pub hash: String,
    pub height: u64,
    pub txids: Vec<Vec<u8>>,
}

/// Builds the send of `amount_sat` to `recipient` that spends exactly `input`.
pub fn send_request(recipient: &String, amount_sat: u64, input: &Utxo) -> (r: SendRequest)
    ensures
        r.recipient@ == recipient@,
        r.amount_sat == amount_sat,
        r.input_txid@ == input.txid@,
        r.input_vout == input.vout,
{
    SendRequest {
        recipient: recipient.clone(),
        amount_sat,
        input_txid: input.txid.clone(),
        input_vout: input.vout,
    }
}

/// What the node's answer to a send settles to: the transaction id, where the
/// send is complete and its id is well formed.
pub open spec fn settle_outcome(complete: bool, txid: Seq<char>) -> Result<Seq<u8>, SettleError> {
    if !complete {
        Err(SettleError::Incomplete)
    } else {
        match txid_from_text(txid) {
            Some(id) => Ok(id),
            None => Err(SettleError::BadTxid),
        }
    }
}

pub open spec fn result_bytes(r: Result<Vec<u8>, SettleError>) -> Result<Seq<u8>, SettleError> {
    match r {
        Ok(v) => Ok(v@),
        Err(e) => Err(e),
    }
}

/// Accepts the node's answer `{complete, txid}` to a send.
pub fn accept_send(complete: bool, txid: &str) -> (r: Result<Vec<u8>, SettleError>)
    ensures
        result_bytes(r) == settle_outcome(complete, txid@),
        r matches Ok(id) ==> id@.len() == 32,
{
    if !complete {
        return Err(SettleError::Incomplete);
    }
    match parse_txid(txid) {
        Some(id) => Ok(id),
        None => Err(SettleError::BadTxid),
    }
}

/// `i` is the first position of `txids` that holds `target`.
pub open spec fn is_first_match(txids: Seq<Vec<u8>>, i: int, target: Seq<u8>) -> bool {
    &&& 0 <= i < txids.len()
    &&& txids[i]@ == target
    &&& forall|j: int| 0 <= j < i ==> (#[trigger] txids[j])@ != target
}

/// Where the target stands in the block, if it does.
pub open spec fn located(txids: Seq<Vec<u8>>, target: Seq<u8>) -> Result<int, ConfirmError> {
    if exists|i: int| is_first_match(txids, i, target) {
        Ok(choose|i: int| is_first_match(txids, i, target))
    } else {
        Err(ConfirmError::NotInBlock)
    }
}

fn same_bytes(a: &Vec<u8>, b: &Vec<u8>) -> (r: bool)
    ensures
        r == (a@ == b@),
{
    if a.len() != b.len() {
        return false;
    }
    let mut i: usize = 0;
    while i < a.len()
        invariant
            i <= a@.len(),
            a@.len() == b@.len(),
            forall|j: int| 0 <= j < i ==> a@[j] == b@[j],
        decreases a@.len() - i,
    {
        if a[i] != b[i] {
            return false;
        }
        i = i + 1;
    }
    assert(a@ =~= b@);
    true
}

/// Finds the settlement `txid` among the transactions of the confirming block.
pub fn locate_tx(block: &BlockFacts, txid: &Vec<u8>) -> (r: Result<usize, ConfirmError>)
    ensures
        match r {
            Ok(i) => is_first_match(block.txids@, i as int, txid@) && located(block.txids@, txid@)
                == Ok::<int, ConfirmError>(i as int),
            Err(e) => e == ConfirmError::NotInBlock && located(block.txids@, txid@) == Err::<
                int,
                ConfirmError,
            >(e) && forall|j: int|
                0 <= j < block.txids@.len() ==> (#[trigger] block.txids@[j])@ != txid@,
        },
{
    let txids = &block.txids;
    let mut i: usize = 0;
    while i < txids.len()
        invariant
            i <= txids@.len(),
            txids@ == block.txids@,
            forall|j: int| 0 <= j < i ==> (#[trigger] txids@[j])@ != txid@,
        decreases txids@.len() - i,
    {
        if same_bytes(&txids[i], txid) {
            proof {
                lemma_first_match_unique(block.txids@, i as int, txid@);
            }
            return Ok(i);
        }
        i = i + 1;
    }
    proof {
        if exists|k: int| is_first_match(txids@, k, txid@) {
            let k = choose|k: int| is_first_match(txids@, k, txid@);
            assert(txids@[k]@ == txid@);
        }
    }
    Err(ConfirmError::NotInBlock)
}

proof fn lemma_first_match_unique(txids: Seq<Vec<u8>>, i: int, target: Seq<u8>)
    requires
        is_first_match(txids, i, target),
    ensures
        located(txids, target) == Ok::<int, ConfirmError>(i),
{
    let k = choose|k: int| is_first_match(txids, k, target);
    assert(is_first_match(txids, k, target));
    if k < i {
        assert(txids[k]@ != target);
    }
    if i < k {
        assert(txids[i]@ != target);
    }
}

/// The id that a complete send reports is the id of the transaction that the
/// confirming block is found to hold; where the node wrote that id in
/// lowercase, the confirmed transaction's id is written as that same text.
pub proof fn lemma_settled_id_is_confirmed_id(complete: bool, sent: Seq<char>, txids: Seq<Vec<u8>>)
    requires
        settle_outcome(complete, sent) is Ok,
        located(txids, settle_outcome(complete, sent)->Ok_0) is Ok,
    ensures
        ({
            let i = located(txids, settle_outcome(complete, sent)->Ok_0)->Ok_0;
            &&& 0 <= i < txids.len()
            &&& txids[i]@ == txid_from_text(sent)->Some_0
            &&& (forall|k: int| 0 <= k < sent.len() ==> is_lower_hex(#[trigger] sent[k]))
                ==> txid_text(txids[i]@) == sent
        }),
{
    let id = settle_outcome(complete, sent)->Ok_0;
    let k = choose|i: int| is_first_match(txids, i, id);
    assert(is_first_match(txids, k, id));
    if forall|j: int| 0 <= j < sent.len() ==> is_lower_hex(#[trigger] sent[j]) {
        lemma_txid_text_round_trip(sent);
    }
}

} // verus!
