use regtest_settlement::attribute::{
    attribute, is_balanced, output_addresses, AttributionError, AttributionRecord, Ownership,
    TxOutput,
};
use regtest_settlement::config::NodeConfig;
use regtest_settlement::funding::{select_funding, FundingError, Utxo};
use regtest_settlement::report::report_lines;
use regtest_settlement::text::decimal_text;
use regtest_settlement::settlement::{
    accept_send, locate_tx, send_request, BlockFacts, ConfirmError, SettleError,
};
use regtest_settlement::wallet::{
    classify_load_failure, contains_text, wallet_step, LoadFailure, LoadOutcome, WalletStep,
};

fn p2wpkh(fill: u8) -> Vec<u8> {
    let mut s = vec![0x00, 0x14];
    s.extend(std::iter::repeat(fill).take(20));
    s
}

fn p2pkh(fill: u8) -> Vec<u8> {
    let mut s = vec![0x76, 0xa9, 0x14];
    s.extend(std::iter::repeat(fill).take(20));
    s.extend([0x88, 0xac]);
    s
}

fn utxo(amount_sat: u64, vout: u32) -> Utxo {
    Utxo { txid: "ab".repeat(32), vout, amount_sat }
}

fn txid_bytes() -> Vec<u8> {
    let mut id = vec![0u8; 32];
    id[31] = 0x01;
    id
}

fn settle_text() -> String {
    format!("01{}", "00".repeat(31))
}

fn owners(flags: &[(bool, bool)]) -> Vec<Ownership> {
    flags.iter().map(|&(t, m)| Ownership { by_trader: t, by_miner: m }).collect()
}

fn two_outputs(trader_sat: u64, change_sat: u64) -> Vec<TxOutput> {
    vec![
        TxOutput { script: p2wpkh(0x11), amount_sat: trader_sat },
        TxOutput { script: p2wpkh(0x22), amount_sat: change_sat },
    ]
}

fn spent(amount_sat: u64) -> TxOutput {
    TxOutput { script: p2wpkh(0x33), amount_sat }
}

fn run_attribute(
    outputs: &Vec<TxOutput>,
    own: &Vec<Ownership>,
    fee: Option<i64>,
    input_sat: u64,
) -> Result<AttributionRecord, AttributionError> {
    attribute(&txid_bytes(), &spent(input_sat), outputs, own, fee, 0, 102, &"ff".repeat(32))
}

#[test]
fn load_failure_messages_are_classified() {
    assert_eq!(
        classify_load_failure("Wallet file verification failed. Failed to load database path '/x/Miner'. Path does not exist."),
        LoadFailure::NotFound
    );
    assert_eq!(
        classify_load_failure("Wallet \"Miner\" is already loaded."),
        LoadFailure::AlreadyLoaded
    );
    assert_eq!(classify_load_failure("Couldn't connect to server"), LoadFailure::Other);
    assert_eq!(classify_load_failure(""), LoadFailure::Other);
}

#[test]
fn text_search_finds_only_whole_patterns() {
    assert!(contains_text("abcabd", "abd"));
    assert!(contains_text("abc", ""));
    assert!(contains_text("abc", "abc"));
    assert!(!contains_text("ab", "abc"));
    assert!(!contains_text("abcab", "abd"));
}

#[test]
fn wallet_steps_follow_the_load_answer() {
    assert_eq!(wallet_step(LoadOutcome::Loaded), WalletStep::Ready);
    assert_eq!(wallet_step(LoadOutcome::Failed(LoadFailure::AlreadyLoaded)), WalletStep::Ready);
    assert_eq!(wallet_step(LoadOutcome::Failed(LoadFailure::NotFound)), WalletStep::Create);
    assert_eq!(wallet_step(LoadOutcome::Failed(LoadFailure::Other)), WalletStep::Abort);
}

#[test]
fn second_ensure_loads_instead_of_creating() {
    // First run: the node has no such wallet, so it is created.
    let first = classify_load_failure("Path does not exist.");
    assert_eq!(wallet_step(LoadOutcome::Failed(first)), WalletStep::Create);
    // Second run on the same node: the wallet is loaded already.
    let second = classify_load_failure("Wallet \"Trader\" is already loaded.");
    assert_eq!(wallet_step(LoadOutcome::Failed(second)), WalletStep::Ready);
}

#[test]
fn wallet_url_appends_the_wallet_path() {
    let cfg = NodeConfig::new("http://127.0.0.1:18443".to_string(), "u".to_string(), "p".to_string());
    assert_eq!(cfg.wallet_url("Miner"), "http://127.0.0.1:18443/wallet/Miner");
}

#[test]
fn funding_takes_first_output_above_minimum() {
    let utxos = vec![utxo(1_000_000_000, 0), utxo(2_000_000_000, 1), utxo(5_000_000_000, 2), utxo(3_000_000_000, 3)];
    assert_eq!(select_funding(&utxos, 2_000_000_000), Ok(2));
    assert_eq!(select_funding(&utxos, 0), Ok(0));
}

#[test]
fn funding_fails_without_a_qualifying_output() {
    let utxos = vec![utxo(1_000_000_000, 0), utxo(2_000_000_000, 1)];
    assert_eq!(select_funding(&utxos, 2_000_000_000), Err(FundingError::NoQualifyingOutput));
    assert_eq!(select_funding(&Vec::new(), 0), Err(FundingError::NoQualifyingOutput));
}

#[test]
fn pipeline_stops_before_settle_when_unfunded() {
    // Every output is worth at most the minimum of 20 coins: the run ends at
    // selection, so no send request and no report are ever built.
    let utxos = vec![utxo(2_000_000_000, 0), utxo(1_500_000_000, 1)];
    let chosen = select_funding(&utxos, 2_000_000_000);
    assert!(chosen.is_err());
    let reached_settle = chosen.map(|i| send_request(&"addr".to_string(), 2_000_000_000, &utxos[i]));
    assert!(reached_settle.is_err());
}

#[test]
fn send_request_pins_the_chosen_input() {
    let u = utxo(5_000_000_000, 7);
    let r = send_request(&"bcrt1qxyz".to_string(), 2_000_000_000, &u);
    assert_eq!(r.recipient, "bcrt1qxyz");
    assert_eq!(r.amount_sat, 2_000_000_000);
    assert_eq!(r.input_txid, u.txid);
    assert_eq!(r.input_vout, 7);
}

#[test]
fn accepted_send_yields_the_id_bytes() {
    // The text of a txid is written in reverse byte order.
    let id = accept_send(true, &settle_text()).unwrap();
    assert_eq!(id, txid_bytes());
}

#[test]
fn incomplete_send_is_refused() {
    assert_eq!(accept_send(false, &settle_text()), Err(SettleError::Incomplete));
}

#[test]
fn malformed_txid_is_refused() {
    assert_eq!(accept_send(true, "not-a-txid"), Err(SettleError::BadTxid));
    assert_eq!(accept_send(true, "abcd"), Err(SettleError::BadTxid));
}

#[test]
fn settled_id_is_found_in_block() {
    let id = accept_send(true, &settle_text()).unwrap();
    let block = BlockFacts {
        hash: "ff".repeat(32),
        height: 102,
        txids: vec![vec![7u8; 32], id.clone(), id.clone()],
    };
    let i = locate_tx(&block, &id).unwrap();
    assert_eq!(i, 1);
    assert_eq!(block.txids[i], id);
}

#[test]
fn missing_settlement_is_reported() {
    let block = BlockFacts { hash: "ff".repeat(32), height: 102, txids: vec![vec![7u8; 32]] };
    assert_eq!(locate_tx(&block, &txid_bytes()), Err(ConfirmError::NotInBlock));
}

#[test]
fn addresses_of_standard_scripts() {
    let outs = vec![
        TxOutput { script: p2wpkh(0x11), amount_sat: 1 },
        TxOutput { script: p2pkh(0x11), amount_sat: 1 },
        TxOutput { script: vec![0x6a, 0x01, 0x02], amount_sat: 0 },
    ];
    let a = output_addresses(&outs);
    assert_eq!(a.len(), 3);
    let w = a[0].clone().unwrap();
    assert!(w.starts_with("bcrt1q"));
    assert_eq!(w.len(), 44);
    let p = a[1].clone().unwrap();
    assert!(p.starts_with('m') || p.starts_with('n'));
    assert_eq!(a[2], None);
}

#[test]
fn balance_is_exact_up_to_tolerance() {
    assert!(is_balanced(5_000_000_000, 2_000_000_000, 2_999_998_590, -1_410, 0));
    assert!(!is_balanced(5_000_000_000, 2_000_000_000, 2_999_998_590, -1_411, 0));
    assert!(is_balanced(5_000_000_000, 2_000_000_000, 2_999_998_590, -1_411, 1));
    assert!(is_balanced(5_000_000_000, 2_000_000_000, 2_999_998_590, 1_410, 0));
    assert!(is_balanced(u64::MAX, u64::MAX - 10, 5, -5, 0));
    assert!(!is_balanced(u64::MAX, u64::MAX, u64::MAX, i64::MIN, u64::MAX));
    assert!(is_balanced(0, 0, 0, i64::MIN, 1u64 << 63));
    assert!(!is_balanced(0, 0, 0, i64::MIN, (1u64 << 63) - 1));
}

#[test]
fn attribution_of_a_two_output_settlement() {
    let outs = two_outputs(2_000_000_000, 2_999_998_590);
    let own = owners(&[(true, false), (false, true)]);
    let rec = run_attribute(&outs, &own, Some(-1_410), 5_000_000_000).unwrap();
    assert_eq!(rec.trader_index, 0);
    assert_eq!(rec.change_index, 1);
    assert_eq!(rec.miner_in_sat, 5_000_000_000);
    assert_eq!(rec.trader_sat, 2_000_000_000);
    assert_eq!(rec.change_sat, 2_999_998_590);
    assert_eq!(rec.fee_sat, -1_410);
    assert_eq!(rec.miner_in_sat, rec.trader_sat + rec.change_sat + rec.fee_sat.unsigned_abs());
    let addrs = output_addresses(&outs);
    assert_eq!(Some(rec.trader_address.clone()), addrs[0]);
    assert_eq!(Some(rec.change_address.clone()), addrs[1]);
    assert_ne!(rec.trader_address, rec.change_address);
    assert_eq!(Some(rec.miner_in_address.clone()), output_addresses(&vec![spent(0)])[0]);
}

#[test]
fn attribution_takes_first_owned_outputs() {
    let outs = vec![
        TxOutput { script: p2wpkh(0x01), amount_sat: 0 },
        TxOutput { script: p2wpkh(0x02), amount_sat: 2_000_000_000 },
        TxOutput { script: p2wpkh(0x03), amount_sat: 2_999_998_590 },
        TxOutput { script: p2wpkh(0x04), amount_sat: 0 },
    ];
    let own = owners(&[(false, false), (true, false), (false, true), (true, true)]);
    let rec = run_attribute(&outs, &own, Some(-1_410), 5_000_000_000).unwrap();
    assert_eq!((rec.trader_index, rec.change_index), (1, 2));
}

#[test]
fn attribution_errors() {
    let outs = two_outputs(2_000_000_000, 2_999_998_590);
    let one = vec![TxOutput { script: p2wpkh(0x11), amount_sat: 1 }];
    assert_eq!(
        run_attribute(&one, &owners(&[(true, true)]), Some(-1), 2).err(),
        Some(AttributionError::TooFewOutputs)
    );
    assert_eq!(
        run_attribute(&outs, &owners(&[(true, false)]), Some(-1_410), 5_000_000_000).err(),
        Some(AttributionError::OwnershipMismatch)
    );
    assert_eq!(
        run_attribute(&outs, &owners(&[(false, true), (false, true)]), Some(-1_410), 5_000_000_000).err(),
        Some(AttributionError::NoTraderOutput)
    );
    assert_eq!(
        run_attribute(&outs, &owners(&[(true, false), (true, false)]), Some(-1_410), 5_000_000_000).err(),
        Some(AttributionError::NoMinerOutput)
    );
    assert_eq!(
        run_attribute(&outs, &owners(&[(true, true), (false, true)]), Some(-1_410), 5_000_000_000).err(),
        Some(AttributionError::SharedOutput)
    );
    assert_eq!(
        run_attribute(&outs, &owners(&[(true, false), (false, true)]), None, 5_000_000_000).err(),
        Some(AttributionError::MissingFee)
    );
    assert_eq!(
        run_attribute(&outs, &owners(&[(true, false), (false, true)]), Some(-1_000), 5_000_000_000).err(),
        Some(AttributionError::Unbalanced)
    );
    let odd = vec![
        TxOutput { script: p2wpkh(0x11), amount_sat: 2_000_000_000 },
        TxOutput { script: vec![0x6a], amount_sat: 2_999_998_590 },
    ];
    assert_eq!(
        run_attribute(&odd, &owners(&[(true, false), (false, true)]), Some(-1_410), 5_000_000_000).err(),
        Some(AttributionError::UnknownScript)
    );
}

#[test]
fn decimal_text_of_heights() {
    assert_eq!(decimal_text(0), "0");
    assert_eq!(decimal_text(9), "9");
    assert_eq!(decimal_text(102), "102");
    assert_eq!(decimal_text(u64::MAX), u64::MAX.to_string());
}

#[test]
fn report_has_ten_lines_in_order() {
    let outs = two_outputs(2_000_000_000, 2_999_998_590);
    let own = owners(&[(true, false), (false, true)]);
    let rec = run_attribute(&outs, &own, Some(-1_410), 5_000_000_000).unwrap();
    let lines = report_lines(&rec);
    assert_eq!(lines.len(), 10);
    assert_eq!(lines[0], settle_text());
    assert_eq!(lines[1], rec.miner_in_address);
    assert_eq!(lines[2], "50");
    assert_eq!(lines[3], rec.trader_address);
    assert_eq!(lines[4], "20");
    assert_eq!(lines[5], rec.change_address);
    assert_eq!(lines[6], "29.9999859");
    assert_eq!(lines[7], "-0.0000141");
    assert_eq!(lines[8], "102");
    assert_eq!(lines[9], "ff".repeat(32));
}

#[test]
fn simulated_run_produces_consistent_report() {
    // A fresh regtest chain: 101 blocks of 50 coins each to the miner; the
    // first matured one funds a send of 20 coins.
    let utxos: Vec<Utxo> = (0..101u32).map(|i| utxo(5_000_000_000, i)).collect();
    let min_sat = 2_000_000_000u64;
    let i = select_funding(&utxos, min_sat).unwrap();
    assert!(utxos[i].amount_sat > min_sat);
    let req = send_request(&"trader".to_string(), 2_000_000_000, &utxos[i]);
    assert_eq!(req.input_vout, utxos[i].vout);
    let id = accept_send(true, &settle_text()).unwrap();
    let block = BlockFacts { hash: "0f".repeat(32), height: 102, txids: vec![vec![9u8; 32], id.clone()] };
    let at = locate_tx(&block, &id).unwrap();
    assert_eq!(block.txids[at], id);
    let outs = vec![
        TxOutput { script: p2wpkh(0x22), amount_sat: 2_999_998_590 },
        TxOutput { script: p2wpkh(0x11), amount_sat: 2_000_000_000 },
    ];
    let own = owners(&[(false, true), (true, false)]);
    let rec = attribute(
        &block.txids[at],
        &spent(utxos[i].amount_sat),
        &outs,
        &own,
        Some(-1_410),
        0,
        block.height,
        &block.hash,
    )
    .unwrap();
    let lines = report_lines(&rec);
    let input: f64 = lines[2].parse().unwrap();
    let trader: f64 = lines[4].parse().unwrap();
    let change: f64 = lines[6].parse().unwrap();
    assert!(input > trader + change);
    let height: u64 = lines[8].parse().unwrap();
    assert!(height > 0);
}

#[test]
fn txid_digits_of_either_case_are_accepted() {
    assert_eq!(accept_send(true, &"AB".repeat(32)), Ok(vec![0xab; 32]));
    let mut expected = vec![0u8; 32];
    expected[0] = 0x0f;
    assert_eq!(accept_send(true, &format!("{}0F", "00".repeat(31))), Ok(expected));
    assert_eq!(accept_send(true, &"ab".repeat(31)), Err(SettleError::BadTxid));
    assert_eq!(accept_send(true, &format!("{}zz", "ab".repeat(31))), Err(SettleError::BadTxid));
}
