use bitcoin::hashes::Hash as _;
use validator_grpc::coinbase::compute_id;
use validator_grpc::delta::{start_run, AwaitBlock, DeltaRun, FetchedBlock};
use validator_grpc::error::{Code, ReadError, RpcError};
use validator_grpc::messages::{
    CoinbaseMessage, M4AckBundles, M8BmmRequest, MessageReadings, ParsedScript,
};
use validator_grpc::treasury::{Server, TreasuryQuery, TreasuryRead};
use validator_grpc::types::{
    Block, BlockAckBundleAction, BlockCoinbaseDiff, BlockCoinbaseMsg, BlockDiff, BlockEvent,
    BlockHeader, BlockInfo, BlockTx, Ctip, Hash256, HeaderInfo, OutPoint, PendingM6idInfo,
    SidechainNumber, SidechainProposal, Transaction, TreasuryUtxo, TxIn, TxOut,
    WithdrawalBundleEvent, WithdrawalBundleEventKind,
};
use validator_grpc::wire::Bip300BlockDelta;

const GENESIS: &str = "000000000019d6689c085ae165831e934ff763ae46a2a6c172b3f1b60a8ce26f";
const GENESIS_COINBASE: &str = "4a5e1e4baab89f3a32518a88c31bc87f618f76673e2cc77ab2127b7afdeda33b";

fn hash(n: u8) -> Hash256 {
    Hash256([n; 32])
}

fn from_bitcoin(block: &bitcoin::Block) -> Block {
    let header = &block.header;
    Block {
        header: BlockHeader {
            version: header.version.to_consensus(),
            prev_blockhash: Hash256(header.prev_blockhash.to_byte_array()),
            merkle_root: Hash256(header.merkle_root.to_byte_array()),
            time: header.time,
            bits: header.bits.to_consensus(),
            nonce: header.nonce,
        },
        txdata: block
            .txdata
            .iter()
            .map(|tx| Transaction {
                version: tx.version.0,
                lock_time: tx.lock_time.to_consensus_u32(),
                input: tx
                    .input
                    .iter()
                    .map(|i| TxIn {
                        previous_output: OutPoint {
                            txid: Hash256(i.previous_output.txid.to_byte_array()),
                            vout: i.previous_output.vout,
                        },
                        script_sig: i.script_sig.to_bytes(),
                        sequence: i.sequence.0,
                        witness: i.witness.to_vec(),
                    })
                    .collect(),
                output: tx
                    .output
                    .iter()
                    .map(|o| TxOut {
                        value: o.value.to_sat(),
                        script_pubkey: o.script_pubkey.to_bytes(),
                    })
                    .collect(),
            })
            .collect(),
    }
}

fn genesis() -> bitcoin::Block {
    bitcoin::constants::genesis_block(bitcoin::Network::Bitcoin)
}

fn genesis_hash() -> Hash256 {
    Hash256(genesis().block_hash().to_byte_array())
}

fn no_readings() -> MessageReadings {
    MessageReadings { coinbase: vec![], bmm_requests: vec![] }
}

fn header(height: u32, wire: &'static str) -> HeaderInfo<&'static str> {
    HeaderInfo { block_hash: genesis_hash(), height, wire }
}

fn no_info() -> BlockInfo {
    BlockInfo { events: vec![], bmm_commitments: vec![], coinbase_txid: hash(0xc0) }
}

fn no_diff() -> BlockDiff {
    BlockDiff { coinbase: BlockCoinbaseDiff { msgs: vec![], failed_m6ids: vec![] }, txs: vec![] }
}

fn fetched() -> FetchedBlock {
    FetchedBlock { block: from_bitcoin(&genesis()), readings: no_readings() }
}

fn next(run: DeltaRun<&'static str>) -> AwaitBlock<&'static str> {
    match run {
        DeltaRun::Next(run) => run,
        DeltaRun::Done(response) => panic!("{response:?}"),
    }
}

fn gone() -> ReadError {
    ReadError { code: Code::NotFound, message: String::from("gone") }
}

#[test]
fn an_unknown_block_has_no_deltas() {
    match start_run::<u8>(Ok(None)).unwrap() {
        DeltaRun::Done(response) => assert!(response.deltas.is_empty()),
        other => panic!("{other:?}"),
    }
    assert_eq!(
        start_run::<u8>(Err(gone())),
        Err(RpcError::Internal { message: String::from("gone") })
    );
}

#[test]
fn a_run_answers_every_block_in_order() {
    let infos = vec![(header(2, "two"), no_info()), (header(1, "one"), no_info())];
    let mut run = start_run(Ok(Some(infos))).unwrap();
    let mut steps = 0;
    let response = loop {
        let wait = match run {
            DeltaRun::Done(response) => break response,
            DeltaRun::Next(wait) => wait,
        };
        steps += 1;
        assert_eq!(wait.wanted(), genesis_hash());
        let wait = wait.on_block(Ok(fetched())).unwrap();
        assert_eq!(wait.wanted(), genesis_hash());
        let wait = wait.on_diff(Ok(no_diff())).unwrap();
        assert!(wait.is_encodable());
        assert!(wait.wanted().is_empty());
        run = wait.on_treasury(&Server { treasury: vec![] }).unwrap();
    };
    assert_eq!(steps, 2);
    let headers = response.deltas.iter().map(|d| d.header_info).collect::<Vec<_>>();
    assert_eq!(headers, ["two", "one"]);
    assert_eq!(response.deltas[0].coinbase_txid.hex, "c0".repeat(32));
    assert!(response.deltas[0].coinbase_messages.is_empty());
    assert!(response.deltas[0].treasury_transitions.is_empty());
    assert!(response.deltas[0].confirmed_bmm_requests.is_empty());
}

#[test]
fn another_block_is_refused() {
    let wait = next(start_run(Ok(Some(vec![(header(1, "one"), no_info())]))).unwrap());
    let mut other = genesis();
    other.header.nonce += 1;
    let refusal = wait
        .on_block(Ok(FetchedBlock { block: from_bitcoin(&other), readings: no_readings() }))
        .unwrap_err();
    assert_eq!(
        refusal,
        RpcError::WrongBlock {
            returned: Hash256(other.block_hash().to_byte_array()),
            requested: genesis_hash(),
        }
    );
    assert_eq!(refusal.code(), Code::Internal);
    assert_eq!(
        refusal.message(),
        format!("Core returned block {} for requested block {GENESIS}", other.block_hash())
    );
}

#[test]
fn failed_reads_end_the_run() {
    let internal = RpcError::Internal { message: String::from("gone") };
    let wait = || next(start_run(Ok(Some(vec![(header(1, "one"), no_info())]))).unwrap());
    assert_eq!(wait().on_block(Err(gone())).unwrap_err(), internal);
    assert_eq!(wait().on_block(Ok(fetched())).unwrap().on_diff(Err(gone())), Err(internal));
}

fn withdrawal() -> (BlockInfo, BlockDiff) {
    let info = BlockInfo {
        events: vec![BlockEvent::WithdrawalBundle(WithdrawalBundleEvent {
            sidechain_id: SidechainNumber(6),
            m6id: hash(6),
            kind: WithdrawalBundleEventKind::Succeeded {
                sequence_number: 1,
                transaction: Transaction {
                    version: 2,
                    lock_time: 0,
                    input: vec![],
                    output: vec![
                        TxOut { value: 70, script_pubkey: vec![] },
                        TxOut { value: 25, script_pubkey: vec![] },
                    ],
                },
            },
        })],
        bmm_commitments: vec![],
        coinbase_txid: hash(0),
    };
    let diff = BlockDiff {
        coinbase: BlockCoinbaseDiff { msgs: vec![], failed_m6ids: vec![] },
        txs: vec![BlockTx::M6 {
            sidechain_number: SidechainNumber(6),
            new_ctip: Ctip { outpoint: OutPoint { txid: hash(1), vout: 0 }, value: 70 },
            removed_pending_withdrawal: hash(6),
            removed_pending_withdrawal_info: PendingM6idInfo { vote_count: 1, proposal_height: 2 },
        }],
    };
    (info, diff)
}

#[test]
fn a_run_reads_the_treasuries_that_it_names() {
    let (info, diff) = withdrawal();
    let wait = next(start_run(Ok(Some(vec![(header(31, "one"), info)]))).unwrap());
    let wait = wait.on_block(Ok(fetched())).unwrap().on_diff(Ok(diff)).unwrap();
    let query = TreasuryQuery { sidechain_number: SidechainNumber(6), sequence_number: 0 };
    assert_eq!(wait.wanted(), [query]);
    let reply =
        Ok(TreasuryUtxo { outpoint: OutPoint { txid: hash(2), vout: 0 }, total_value: 100 });
    let server = Server { treasury: vec![TreasuryRead { query, reply }] };
    match wait.on_treasury(&server).unwrap() {
        DeltaRun::Done(response) => {
            let t = &response.deltas[0].treasury_transitions[0];
            assert_eq!(t.payout_sats, Some(25));
            assert_eq!(t.fee_sats, Some(5));
            assert_eq!(t.terminal_height, Some(31));
        }
        other => panic!("{other:?}"),
    }
}

#[test]
fn a_failed_treasury_read_ends_the_run() {
    let (info, diff) = withdrawal();
    let wait = next(start_run(Ok(Some(vec![(header(31, "one"), info)]))).unwrap());
    let wait = wait.on_block(Ok(fetched())).unwrap().on_diff(Ok(diff)).unwrap();
    let query = TreasuryQuery { sidechain_number: SidechainNumber(6), sequence_number: 0 };
    let server = Server { treasury: vec![TreasuryRead { query, reply: Err(gone()) }] };
    assert_eq!(
        wait.on_treasury(&server),
        Err(RpcError::Internal { message: String::from("gone") })
    );
}

fn request(n: u8, hstar: u8, prev: Hash256) -> Option<M8BmmRequest> {
    Some(M8BmmRequest {
        sidechain_number: SidechainNumber(n),
        sidechain_block_hash: hash(hstar),
        prev_mainchain_block_hash: prev,
    })
}

#[test]
fn honoured_requests_are_confirmed() {
    let genesis = genesis();
    let mut raw = genesis.clone();
    for _ in 0..5 {
        raw.txdata.push(genesis.txdata[0].clone());
    }
    let block = from_bitcoin(&raw);
    let prev = block.header.prev_blockhash;
    let info = BlockInfo {
        events: vec![],
        bmm_commitments: vec![(SidechainNumber(1), hash(0x11)), (SidechainNumber(2), hash(0x22))],
        coinbase_txid: hash(0),
    };
    let readings = MessageReadings {
        coinbase: vec![],
        bmm_requests: vec![
            request(1, 0x11, prev),
            request(2, 0x22, prev),
            None,
            request(2, 0x11, prev),
            request(1, 0x11, hash(9)),
            request(1, 0x11, prev),
        ],
    };
    let server = Server { treasury: vec![] };
    let confirmed = server.confirmed_bmm_requests(&block, &readings, &info);
    let seen = confirmed.iter().map(|c| c.sidechain_number).collect::<Vec<_>>();
    // The coinbase asks for nothing, and nobody else's wishes come true.
    assert_eq!(seen, [2, 1]);
    let first = &confirmed[0];
    assert_eq!(first.txid.hex, GENESIS_COINBASE);
    assert_eq!(
        first.transaction.hex,
        bitcoin::consensus::encode::serialize_hex(&genesis.txdata[0])
    );
    assert_eq!(first.hstar.hex, "22".repeat(32));
    assert_eq!(first.previous_mainchain_block_hash.hex, "00".repeat(32));
    assert_eq!(first.fee_sats, None);
}

#[test]
fn a_delta_holds_all_parts() {
    let genesis = genesis();
    let mut raw = genesis.clone();
    raw.txdata.push(genesis.txdata[0].clone());
    let block = from_bitcoin(&raw);
    let (mut info, diff) = withdrawal();
    info.bmm_commitments = vec![(SidechainNumber(1), hash(0x11))];
    let readings = MessageReadings {
        coinbase: vec![Some(ParsedScript {
            rest: vec![],
            message: CoinbaseMessage::M4AckBundles(M4AckBundles::RepeatPrevious),
        })],
        bmm_requests: vec![None, request(1, 0x11, block.header.prev_blockhash)],
    };
    let query = TreasuryQuery { sidechain_number: SidechainNumber(6), sequence_number: 0 };
    let reply =
        Ok(TreasuryUtxo { outpoint: OutPoint { txid: hash(2), vout: 0 }, total_value: 100 });
    let server = Server { treasury: vec![TreasuryRead { query, reply }] };
    let delta =
        server.bip300_block_delta(header(5, "five"), &block, &readings, &info, &diff).unwrap();
    assert_eq!(delta.header_info, "five");
    assert_eq!(delta.coinbase_txid.hex, "00".repeat(32));
    assert_eq!(delta.coinbase_messages.len(), 1);
    assert_eq!(delta.treasury_transitions.len(), 1);
    assert_eq!(delta.confirmed_bmm_requests.len(), 1);
    let empty = Server { treasury: vec![] };
    assert_eq!(
        empty.bip300_block_delta(header(5, "five"), &block, &readings, &info, &diff),
        Err(RpcError::TreasuryNotRead {
            sidechain_number: SidechainNumber(6),
            sequence_number: 0,
        })
    );
}

#[test]
fn witnesses_are_measured() {
    let mut block = from_bitcoin(&genesis());
    block.txdata[0].input[0].witness = vec![vec![0; 300], vec![1; 70_000], vec![]];
    assert!(block.is_encodable());
    assert!(no_info().is_encodable());
    assert!(withdrawal().0.is_encodable());
}

fn permuted_delta(order: [u8; 2]) -> Bip300BlockDelta<&'static str> {
    let genesis = genesis();
    let mut raw = genesis.clone();
    raw.txdata.push(genesis.txdata[0].clone());
    let block = from_bitcoin(&raw);
    let alarm = |n: u8| {
        (
            SidechainNumber(n),
            BlockAckBundleAction::Alarm {
                positive_votes_proposals: order.iter().map(|id| hash(*id)).collect(),
            },
        )
    };
    let bundle = |id: u8| (hash(id), PendingM6idInfo { vote_count: 0, proposal_height: 1 });
    let bundles = || order.iter().map(|id| bundle(*id)).collect::<Vec<_>>();
    let info = BlockInfo {
        events: vec![],
        bmm_commitments: order.iter().map(|n| (SidechainNumber(*n), hash(*n))).collect(),
        coinbase_txid: hash(0),
    };
    let diff = BlockDiff {
        coinbase: BlockCoinbaseDiff {
            msgs: vec![BlockCoinbaseMsg::AckBundles(order.iter().map(|n| alarm(*n)).collect())],
            failed_m6ids: order.iter().map(|n| (SidechainNumber(*n), bundles())).collect(),
        },
        txs: vec![],
    };
    let readings = MessageReadings {
        coinbase: vec![Some(ParsedScript {
            rest: vec![],
            message: CoinbaseMessage::M4AckBundles(M4AckBundles::RepeatPrevious),
        })],
        bmm_requests: vec![None, request(3, 3, block.header.prev_blockhash)],
    };
    Server { treasury: vec![] }
        .bip300_block_delta(header(5, "five"), &block, &readings, &info, &diff)
        .unwrap()
}

#[test]
fn a_delta_does_not_depend_on_the_order_of_maps() {
    let delta = permuted_delta([3, 9]);
    assert_eq!(delta.treasury_transitions.len(), 4);
    assert_eq!(delta.confirmed_bmm_requests.len(), 1);
    assert_eq!(delta, permuted_delta([9, 3]));
}

#[test]
fn a_block_hash_is_the_double_hash_of_its_header() {
    let mut raw = genesis();
    raw.header.version = bitcoin::block::Version::from_consensus(-2);
    raw.header.time = 0x0102_0304;
    let mut bytes = vec![0xfe, 0xff, 0xff, 0xff];
    bytes.extend(raw.header.prev_blockhash.to_byte_array());
    bytes.extend(raw.header.merkle_root.to_byte_array());
    bytes.extend([4, 3, 2, 1]);
    bytes.extend(raw.header.bits.to_consensus().to_le_bytes());
    bytes.extend(raw.header.nonce.to_le_bytes());
    let proposal = SidechainProposal { sidechain_number: SidechainNumber(0), description: bytes };
    let block_hash = compute_id(&proposal).description_hash;
    let infos = vec![(HeaderInfo { block_hash, height: 1, wire: "one" }, no_info())];
    let wait = next(start_run(Ok(Some(infos))).unwrap());
    let block = FetchedBlock { block: from_bitcoin(&raw), readings: no_readings() };
    assert!(wait.on_block(Ok(block)).is_ok());
}
