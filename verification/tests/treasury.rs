use bitcoin::hashes::Hash as _;
use validator_grpc::error::{Code, ReadError, RpcError};
use validator_grpc::plan::treasury_queries;
use validator_grpc::treasury::{
    hash_le, historical_treasury_ctip, treasury_ctip, Server, TreasuryQuery, TreasuryRead,
};
use validator_grpc::types::{
    Block, BlockCoinbaseDiff, BlockDiff, BlockEvent, BlockHeader, BlockInfo, BlockTx, Ctip,
    Deposit, Hash256, HeaderInfo, OutPoint, PendingM6idInfo, SidechainNumber, Transaction,
    TreasuryUtxo, TxIn, TxOut, WithdrawalBundleEvent, WithdrawalBundleEventKind,
};
use validator_grpc::wire::{TransitionKind, TreasuryTransition};

fn hash(n: u8) -> Hash256 {
    Hash256([n; 32])
}

fn hex(n: u8) -> String {
    format!("{n:02x}").repeat(32)
}

fn tx(tag: u8, values: &[u64]) -> Transaction {
    Transaction {
        version: 2,
        lock_time: 7,
        input: vec![TxIn {
            previous_output: OutPoint { txid: hash(tag), vout: 1 },
            script_sig: vec![tag],
            sequence: 0xffff_fffe,
            witness: vec![vec![1, 2, 3], vec![]],
        }],
        output: values
            .iter()
            .map(|value| TxOut { value: *value, script_pubkey: vec![0x51, tag] })
            .collect(),
    }
}

fn as_bitcoin(tx: &Transaction) -> bitcoin::Transaction {
    bitcoin::Transaction {
        version: bitcoin::transaction::Version(tx.version),
        lock_time: bitcoin::absolute::LockTime::from_consensus(tx.lock_time),
        input: tx
            .input
            .iter()
            .map(|i| bitcoin::TxIn {
                previous_output: bitcoin::OutPoint::new(
                    bitcoin::Txid::from_byte_array(i.previous_output.txid.0),
                    i.previous_output.vout,
                ),
                script_sig: bitcoin::ScriptBuf::from_bytes(i.script_sig.clone()),
                sequence: bitcoin::Sequence(i.sequence),
                witness: bitcoin::Witness::from_slice(&i.witness),
            })
            .collect(),
        output: tx
            .output
            .iter()
            .map(|o| bitcoin::TxOut {
                value: bitcoin::Amount::from_sat(o.value),
                script_pubkey: bitcoin::ScriptBuf::from_bytes(o.script_pubkey.clone()),
            })
            .collect(),
    }
}

fn txid(tx: &Transaction) -> Hash256 {
    Hash256(as_bitcoin(tx).compute_txid().to_byte_array())
}

fn block(txdata: Vec<Transaction>) -> Block {
    Block {
        header: BlockHeader {
            version: 1,
            prev_blockhash: hash(0),
            merkle_root: hash(0),
            time: 0,
            bits: 0,
            nonce: 0,
        },
        txdata,
    }
}

fn header() -> HeaderInfo<()> {
    HeaderInfo { block_hash: hash(0xbb), height: 812_000, wire: () }
}

fn info(events: Vec<BlockEvent>) -> BlockInfo {
    BlockInfo { events, bmm_commitments: vec![], coinbase_txid: hash(0xcc) }
}

fn diff(txs: Vec<BlockTx>) -> BlockDiff {
    BlockDiff { coinbase: BlockCoinbaseDiff { msgs: vec![], failed_m6ids: vec![] }, txs }
}

fn query(n: u8, sequence_number: u64) -> TreasuryQuery {
    TreasuryQuery { sidechain_number: SidechainNumber(n), sequence_number }
}

fn utxo(n: u8, total_value: u64) -> TreasuryUtxo {
    TreasuryUtxo { outpoint: OutPoint { txid: hash(n), vout: 4 }, total_value }
}

fn server(reads: Vec<(TreasuryQuery, u64)>) -> Server {
    Server {
        treasury: reads
            .into_iter()
            .map(|(query, value)| TreasuryRead { query, reply: Ok(utxo(0x77, value)) })
            .collect(),
    }
}

fn deposit(sequence_number: u64, outpoint: OutPoint, value: u64) -> Deposit {
    Deposit { sequence_number, outpoint, value, address: vec![0xab, 0xcd] }
}

fn deposits(entries: Vec<(u8, Deposit)>) -> BlockEvent {
    BlockEvent::Deposits(entries.into_iter().map(|(n, d)| (SidechainNumber(n), d)).collect())
}

fn ctip(outpoint: OutPoint, value: u64) -> Ctip {
    Ctip { outpoint, value }
}

fn m6(n: u8, value: u64) -> BlockTx {
    BlockTx::M6 {
        sidechain_number: SidechainNumber(n),
        new_ctip: ctip(OutPoint { txid: hash(0x66), vout: 0 }, value),
        removed_pending_withdrawal: hash(0x6d),
        removed_pending_withdrawal_info: PendingM6idInfo { vote_count: 9, proposal_height: 800 },
    }
}

fn bundle(n: u8, kind: WithdrawalBundleEventKind) -> BlockEvent {
    BlockEvent::WithdrawalBundle(WithdrawalBundleEvent {
        sidechain_id: SidechainNumber(n),
        m6id: hash(0x6d),
        kind,
    })
}

fn succeeded(n: u8, sequence_number: u64, values: &[u64]) -> BlockEvent {
    bundle(
        n,
        WithdrawalBundleEventKind::Succeeded { sequence_number, transaction: tx(5, values) },
    )
}

#[test]
fn ctips_go_out_reversed() {
    let mut bytes = [0; 32];
    bytes[0] = 1;
    let outpoint = OutPoint { txid: Hash256(bytes), vout: 9 };
    let written = treasury_ctip(&ctip(outpoint, 70));
    assert_eq!(written.txid.hex, format!("{}01", "00".repeat(31)));
    assert_eq!(written.vout, 9);
    assert_eq!(written.value_sats, 70);
    let written = historical_treasury_ctip(&TreasuryUtxo { outpoint, total_value: 71 });
    assert_eq!(written.txid.hex, format!("{}01", "00".repeat(31)));
    assert_eq!(written.value_sats, 71);
}

#[test]
fn the_first_treasury_has_none_before_it() {
    assert_eq!(server(vec![]).previous_treasury_ctip(SidechainNumber(1), 0), Ok(None));
}

#[test]
fn a_later_treasury_has_the_one_before_it() {
    let server = server(vec![(query(1, 2), 20), (query(1, 3), 30), (query(2, 2), 40)]);
    let previous = server.previous_treasury_ctip(SidechainNumber(1), 3).unwrap().unwrap();
    assert_eq!(previous.value_sats, 20);
    assert_eq!(previous.txid.hex, hex(0x77));
    assert_eq!(previous.vout, 4);
}

#[test]
fn a_failed_read_is_an_internal_error() {
    let server = Server {
        treasury: vec![TreasuryRead {
            query: query(1, 0),
            reply: Err(ReadError { code: Code::NotFound, message: String::from("gone") }),
        }],
    };
    let refusal = server.previous_treasury_ctip(SidechainNumber(1), 1).unwrap_err();
    assert_eq!(refusal, RpcError::Internal { message: String::from("gone") });
    assert_eq!(refusal.code(), Code::Internal);
    assert_eq!(refusal.message(), "gone");
}

#[test]
fn an_output_that_was_not_read() {
    let refusal = server(vec![]).get_treasury_utxo(SidechainNumber(12), 340).unwrap_err();
    assert_eq!(
        refusal,
        RpcError::TreasuryNotRead { sidechain_number: SidechainNumber(12), sequence_number: 340 }
    );
    assert_eq!(refusal.message(), "no treasury UTXO of sidechain 12 at sequence 340");
}

#[test]
fn a_first_deposit() {
    let m5 = tx(3, &[500, 10]);
    let outpoint = OutPoint { txid: txid(&m5), vout: 0 };
    let written = bitcoin::consensus::encode::serialize_hex(&as_bitcoin(&m5));
    let block = block(vec![tx(1, &[50]), m5]);
    let info = info(vec![
        BlockEvent::WithdrawalBundle(WithdrawalBundleEvent {
            sidechain_id: SidechainNumber(4),
            m6id: hash(1),
            kind: WithdrawalBundleEventKind::Submitted,
        }),
        deposits(vec![(4, deposit(0, outpoint, 450))]),
    ]);
    let diff = diff(vec![BlockTx::M5 { new_ctips: vec![(SidechainNumber(4), ctip(outpoint, 500))] }]);
    let transitions = server(vec![]).treasury_transitions(&header(), &block, &info, &diff).unwrap();
    assert_eq!(transitions.len(), 1);
    let t = &transitions[0];
    assert_eq!(t.kind, TransitionKind::Deposit);
    assert_eq!(t.sidechain_number, 4);
    assert_eq!(t.previous_ctip, None);
    assert_eq!(t.new_ctip.as_ref().unwrap().value_sats, 500);
    assert_eq!(t.sequence_number, Some(0));
    assert_eq!(t.delta_sats, Some(450));
    assert_eq!(t.payout_sats, None);
    assert_eq!(t.fee_sats, None);
    assert_eq!(t.m6id, None);
    assert_eq!(t.sidechain_address.as_ref().unwrap().hex, "abcd");
    assert_eq!(t.transaction.as_ref().unwrap().hex, written);
    assert_eq!(t.proposal_height, None);
    assert_eq!(t.terminal_height, Some(812_000));
}

fn two_deposits(order: [u8; 2]) -> Vec<TreasuryTransition> {
    let m5 = tx(3, &[500, 600]);
    let id = txid(&m5);
    let outpoint = |n: u8| OutPoint { txid: id, vout: n as u32 };
    let block = block(vec![m5]);
    let entry = |n: u8| (n, deposit(n as u64, outpoint(n), 100 + n as u64));
    let info = info(vec![deposits(order.iter().map(|n| entry(*n)).collect())]);
    let diff = diff(vec![BlockTx::M5 {
        new_ctips: order.iter().map(|n| (SidechainNumber(*n), ctip(outpoint(*n), 900))).collect(),
    }]);
    server(vec![(query(1, 0), 11), (query(8, 7), 88)])
        .treasury_transitions(&header(), &block, &info, &diff)
        .unwrap()
}

#[test]
fn deposits_do_not_depend_on_the_order_of_maps() {
    let transitions = two_deposits([8, 1]);
    assert_eq!(transitions[0].sidechain_number, 1);
    assert_eq!(transitions[0].previous_ctip.as_ref().unwrap().value_sats, 11);
    assert_eq!(transitions[1].sidechain_number, 8);
    assert_eq!(transitions[1].previous_ctip.as_ref().unwrap().value_sats, 88);
    assert_eq!(transitions, two_deposits([1, 8]));
}

#[test]
fn a_deposit_needs_its_event() {
    let m5 = tx(3, &[500]);
    let outpoint = OutPoint { txid: txid(&m5), vout: 0 };
    let other = OutPoint { txid: txid(&m5), vout: 1 };
    let block = block(vec![m5]);
    let diff = diff(vec![BlockTx::M5 { new_ctips: vec![(SidechainNumber(4), ctip(outpoint, 1))] }]);
    // The one event is of another output.
    let info = info(vec![deposits(vec![(4, deposit(0, other, 1))])]);
    let refusal =
        server(vec![]).treasury_transitions(&header(), &block, &info, &diff).unwrap_err();
    assert_eq!(refusal, RpcError::DepositWithoutEvent { sidechain_number: SidechainNumber(4) });
    assert_eq!(refusal.code(), Code::Internal);
    assert_eq!(refusal.message(), "M5 diff for sidechain 4 has no matching block event");
}

#[test]
fn a_deposit_needs_its_transaction() {
    let outpoint = OutPoint { txid: hash(0x2a), vout: 0 };
    let block = block(vec![tx(3, &[500])]);
    let diff = diff(vec![BlockTx::M5 { new_ctips: vec![(SidechainNumber(4), ctip(outpoint, 1))] }]);
    let info = info(vec![deposits(vec![(4, deposit(3, outpoint, 1))])]);
    let refusal =
        server(vec![]).treasury_transitions(&header(), &block, &info, &diff).unwrap_err();
    assert_eq!(refusal, RpcError::DepositOutsideBlock { txid: hash(0x2a) });
    assert_eq!(
        refusal.message(),
        format!("M5 diff references transaction {} outside its block", hex(0x2a))
    );
}

#[test]
fn a_withdrawal_shares_out_the_treasury() {
    let info = info(vec![
        bundle(4, WithdrawalBundleEventKind::Failed),
        succeeded(5, 9, &[1, 1]),
        succeeded(4, 3, &[600, 250, 100]),
    ]);
    let transitions = server(vec![(query(4, 2), 1_000)])
        .treasury_transitions(&header(), &block(vec![]), &info, &diff(vec![m6(4, 600)]))
        .unwrap();
    assert_eq!(transitions.len(), 1);
    let t = &transitions[0];
    assert_eq!(t.kind, TransitionKind::WithdrawalSucceeded);
    assert_eq!(t.sidechain_number, 4);
    assert_eq!(t.previous_ctip.as_ref().unwrap().value_sats, 1_000);
    assert_eq!(t.new_ctip.as_ref().unwrap().value_sats, 600);
    assert_eq!(t.new_ctip.as_ref().unwrap().txid.hex, hex(0x66));
    assert_eq!(t.sequence_number, Some(3));
    assert_eq!(t.delta_sats, Some(400));
    assert_eq!(t.payout_sats, Some(350));
    assert_eq!(t.fee_sats, Some(50));
    assert_eq!(t.m6id.as_ref().unwrap().hex, hex(0x6d));
    assert_eq!(t.sidechain_address, None);
    assert_eq!(
        t.transaction.as_ref().unwrap().hex,
        bitcoin::consensus::encode::serialize_hex(&as_bitcoin(&tx(5, &[600, 250, 100])))
    );
    assert_eq!(t.proposal_height, Some(800));
    assert_eq!(t.terminal_height, Some(812_000));
}

fn withdraw(event: BlockEvent, held: u64, value: u64) -> Result<Vec<TreasuryTransition>, RpcError> {
    server(vec![(query(4, 2), held)]).treasury_transitions(
        &header(),
        &block(vec![]),
        &info(vec![event]),
        &diff(vec![m6(4, value)]),
    )
}

#[test]
fn a_withdrawal_may_leave_no_fee() {
    let transitions = withdraw(succeeded(4, 3, &[0]), u64::MAX, u64::MAX).unwrap();
    assert_eq!(transitions[0].payout_sats, Some(0));
    assert_eq!(transitions[0].fee_sats, Some(0));
    assert_eq!(transitions[0].delta_sats, Some(0));
    let transitions = withdraw(succeeded(4, 3, &[]), 10, 8).unwrap();
    assert_eq!(transitions[0].payout_sats, Some(0));
    assert_eq!(transitions[0].fee_sats, Some(2));
}

#[test]
fn a_withdrawal_needs_its_success() {
    let refusal = withdraw(bundle(4, WithdrawalBundleEventKind::Failed), 10, 1).unwrap_err();
    assert_eq!(refusal, RpcError::WithdrawalWithoutEvent { sidechain_number: SidechainNumber(4) });
    assert_eq!(refusal.message(), "M6 diff for sidechain 4 has no matching success event");
    assert!(withdraw(succeeded(5, 3, &[1]), 10, 1).is_err());
}

#[test]
fn a_withdrawal_is_never_the_first() {
    let refusal = withdraw(succeeded(4, 0, &[1]), 10, 1).unwrap_err();
    assert_eq!(refusal, RpcError::WithdrawalAtSequenceZero);
    assert_eq!(refusal.message(), "a successful M6 cannot be treasury sequence zero");
}

#[test]
fn withdrawal_amounts_must_fit() {
    let refusal = withdraw(succeeded(4, 3, &[0, u64::MAX, 1]), 10, 1).unwrap_err();
    assert_eq!(refusal, RpcError::PayoutOverflow);
    assert_eq!(refusal.message(), "M6 payout amount overflow");
    let refusal = withdraw(succeeded(4, 3, &[0, u64::MAX]), 10, 1).unwrap_err();
    assert_eq!(refusal, RpcError::OutputOverflow);
    assert_eq!(refusal.message(), "M6 output amount overflow");
    let refusal = withdraw(succeeded(4, 3, &[0, 10]), 10, 1).unwrap_err();
    assert_eq!(refusal, RpcError::OutputExceedsTreasury);
    assert_eq!(refusal.message(), "M6 output amount exceeds previous treasury value");
}

fn failed_diff(order: [u8; 2], ids: [u8; 2]) -> BlockDiff {
    let bundles = |first: u8| {
        ids.iter()
            .map(|id| {
                (
                    hash(first + id),
                    PendingM6idInfo { vote_count: 0, proposal_height: (first + id) as u32 },
                )
            })
            .collect::<Vec<_>>()
    };
    BlockDiff {
        coinbase: BlockCoinbaseDiff {
            msgs: vec![],
            failed_m6ids: order.iter().map(|n| (SidechainNumber(*n), bundles(*n))).collect(),
        },
        txs: vec![m6(4, 600)],
    }
}

#[test]
fn failures_come_last_and_in_order() {
    let server = server(vec![(query(4, 2), 1_000)]);
    let info = info(vec![succeeded(4, 3, &[600, 100])]);
    let transitions = server
        .treasury_transitions(&header(), &block(vec![]), &info, &failed_diff([9, 2], [7, 1]))
        .unwrap();
    let seen = transitions
        .iter()
        .map(|t| (t.kind, t.sidechain_number, t.m6id.as_ref().unwrap().hex.clone()))
        .collect::<Vec<_>>();
    assert_eq!(
        seen,
        [
            (TransitionKind::WithdrawalSucceeded, 4, hex(0x6d)),
            (TransitionKind::WithdrawalFailed, 2, hex(3)),
            (TransitionKind::WithdrawalFailed, 2, hex(9)),
            (TransitionKind::WithdrawalFailed, 9, hex(10)),
            (TransitionKind::WithdrawalFailed, 9, hex(16)),
        ]
    );
    let last = &transitions[4];
    assert_eq!(last.previous_ctip, None);
    assert_eq!(last.new_ctip, None);
    assert_eq!(last.sequence_number, None);
    assert_eq!(last.delta_sats, None);
    assert_eq!(last.payout_sats, None);
    assert_eq!(last.fee_sats, None);
    assert_eq!(last.sidechain_address, None);
    assert_eq!(last.transaction, None);
    assert_eq!(last.proposal_height, Some(16));
    assert_eq!(last.terminal_height, Some(812_000));
    assert_eq!(
        transitions,
        server
            .treasury_transitions(&header(), &block(vec![]), &info, &failed_diff([2, 9], [1, 7]))
            .unwrap()
    );
}

#[test]
fn the_plan_names_every_read() {
    let m5 = tx(3, &[500]);
    let outpoint = OutPoint { txid: txid(&m5), vout: 0 };
    let info = info(vec![
        deposits(vec![(7, deposit(0, outpoint, 1)), (2, deposit(5, outpoint, 1))]),
        succeeded(4, 3, &[1]),
    ]);
    let diff = diff(vec![
        m6(4, 1),
        BlockTx::M5 {
            new_ctips: vec![
                (SidechainNumber(7), ctip(outpoint, 1)),
                (SidechainNumber(2), ctip(outpoint, 1)),
            ],
        },
        m6(5, 1),
    ]);
    assert_eq!(treasury_queries(&info, &diff), [query(4, 2), query(2, 4)]);
}

#[test]
fn the_first_failure_stops_the_block() {
    let diff = diff(vec![m6(4, 1), m6(9, 1)]);
    let refusal = server(vec![(query(4, 2), 10)])
        .treasury_transitions(
            &header(),
            &block(vec![]),
            &info(vec![succeeded(4, 3, &[0, 100])]),
            &diff,
        )
        .unwrap_err();
    assert_eq!(refusal, RpcError::OutputExceedsTreasury);
}

#[test]
fn hashes_are_ordered_from_their_first_byte() {
    let mut low = [0; 32];
    low[31] = 9;
    let mut high = [0; 32];
    high[0] = 1;
    assert!(hash_le(&Hash256(low), &Hash256(high)));
    assert!(!hash_le(&Hash256(high), &Hash256(low)));
    assert!(hash_le(&Hash256(low), &Hash256(low)));
}
