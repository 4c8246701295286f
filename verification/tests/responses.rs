use validator_grpc::error::{Code, ReadError, RpcError};
use validator_grpc::response::{
    get_block_header_info, get_block_info, get_bmm_h_star_commitment, get_chain_info,
    get_chain_tip, get_chain_tip_query, get_coinbase_psbt, get_ctip, get_sidechains,
    get_two_way_peg_data, get_withdrawal_bundle_proposals, on_ctip, stop, stop_step,
    subscribe_events_item, subscribe_header_sync_progress, BlockInfoItem, BmmHStarCommitment,
    CtipStep, GetCtipResponse, NetworkParams, SubscribeEventsResponse, Thresholds,
};
use validator_grpc::types::{Ctip, Hash256, OutPoint, PendingM6idInfo, SidechainNumber};

fn read_error() -> ReadError {
    ReadError { code: Code::NotFound, message: String::from("no such row") }
}

fn internal() -> RpcError {
    RpcError::Internal { message: String::from("no such row") }
}

fn status() -> RpcError {
    RpcError::Status { code: Code::NotFound, message: String::from("no such row") }
}

fn marked(first: u8, last: u8) -> Hash256 {
    let mut bytes = [0; 32];
    bytes[0] = first;
    bytes[31] = last;
    Hash256(bytes)
}

fn marked_hex(first: &str, last: &str) -> String {
    format!("{first}{}{last}", "00".repeat(30))
}

#[test]
fn headers_of_an_unknown_block_are_none() {
    let reply = get_block_header_info::<u8>(Ok(None)).unwrap();
    assert!(reply.header_infos.is_empty());
    assert_eq!(get_block_header_info(Ok(Some(vec![3, 1, 2]))).unwrap().header_infos, [3, 1, 2]);
    assert_eq!(get_block_header_info::<u8>(Err(read_error())), Err(internal()));
}

#[test]
fn block_infos_keep_their_order() {
    let reply = get_block_info(Ok(Some(vec![('a', 1), ('b', 2)]))).unwrap();
    assert_eq!(
        reply.infos,
        [
            BlockInfoItem { header_info: 'a', block_info: 1 },
            BlockInfoItem { header_info: 'b', block_info: 2 },
        ]
    );
    assert!(get_block_info::<char, u8>(Ok(None)).unwrap().infos.is_empty());
    assert_eq!(get_block_info::<char, u8>(Err(read_error())), Err(internal()));
}

#[test]
fn commitments_of_an_unknown_block() {
    let reply =
        get_bmm_h_star_commitment(&marked(0xab, 0x01), SidechainNumber(1), Ok(vec![])).unwrap();
    match reply {
        BmmHStarCommitment::BlockNotFound { block_hash } => {
            assert_eq!(block_hash.hex, marked_hex("01", "ab"));
        }
        other => panic!("{other:?}"),
    }
}

#[test]
fn commitments_one_per_block() {
    let reply = get_bmm_h_star_commitment(
        &marked(0, 0),
        SidechainNumber(1),
        Ok(vec![
            vec![(SidechainNumber(0), marked(9, 9)), (SidechainNumber(1), marked(1, 2))],
            vec![(SidechainNumber(0), marked(9, 9))],
            vec![(SidechainNumber(1), marked(3, 4))],
        ]),
    )
    .unwrap();
    match reply {
        BmmHStarCommitment::Commitment { commitment, ancestor_commitments } => {
            assert_eq!(commitment.unwrap().hex, marked_hex("01", "02"));
            assert_eq!(ancestor_commitments.len(), 2);
            assert!(ancestor_commitments[0].is_none());
            assert_eq!(ancestor_commitments[1].as_ref().unwrap().hex, marked_hex("03", "04"));
        }
        other => panic!("{other:?}"),
    }
}

#[test]
fn commitments_of_a_block_without_one() {
    let reply =
        get_bmm_h_star_commitment(&marked(0, 0), SidechainNumber(1), Ok(vec![vec![]])).unwrap();
    assert_eq!(
        reply,
        BmmHStarCommitment::Commitment { commitment: None, ancestor_commitments: vec![] }
    );
    assert_eq!(
        get_bmm_h_star_commitment(&marked(0, 0), SidechainNumber(1), Err(read_error())),
        Err(internal())
    );
}

#[test]
fn chain_info_widens_the_rules() {
    let reply = get_chain_info(
        "signet",
        &NetworkParams {
            thresholds: Thresholds {
                withdrawal_bundle_max_age: 10,
                withdrawal_bundle_inclusion_threshold: 5,
                used_sidechain_slot_proposal_max_age: 20,
                used_sidechain_slot_activation_threshold: 15,
                unused_sidechain_slot_proposal_max_age: 65535,
                unused_sidechain_slot_activation_threshold: 6,
            },
            bip300_activation_height: 700_000,
        },
    );
    assert_eq!(reply.network, "signet");
    let constants = reply.bip300_constants;
    assert_eq!(constants.withdrawal_bundle_max_age, 10);
    assert_eq!(constants.withdrawal_bundle_inclusion_threshold, 5);
    assert_eq!(constants.used_sidechain_slot_proposal_max_age, 20);
    assert_eq!(constants.used_sidechain_slot_activation_threshold, 15);
    assert_eq!(constants.unused_sidechain_slot_proposal_max_age, 65535);
    assert_eq!(constants.unused_sidechain_slot_activation_threshold, 6);
    assert_eq!(constants.activation_height, 700_000);
}

#[test]
fn chain_tip_needs_a_tip() {
    assert_eq!(get_chain_tip_query(Ok(Some(marked(1, 1)))), Ok(marked(1, 1)));
    assert_eq!(get_chain_tip_query(Err(read_error())), Err(status()));
    let refusal = get_chain_tip_query(Ok(None)).unwrap_err();
    assert_eq!(refusal, RpcError::NotSynced);
    assert_eq!(refusal.code(), Code::Unavailable);
    assert_eq!(refusal.message(), "Validator is not synced");
    assert_eq!(get_chain_tip(Ok("header")).unwrap().block_header_info, "header");
    assert_eq!(get_chain_tip::<u8>(Err(read_error())), Err(internal()));
}

#[test]
fn psbt_of_one_script() {
    let reply = get_coinbase_psbt(vec![Ok(vec![0x6a])]).unwrap();
    // version, marker and flag, no inputs, one output of no value, lock time
    let want = "02000000 0001 00 01 0000000000000000 016a 00000000";
    assert_eq!(reply.psbt.hex, want.replace(' ', ""));
}

#[test]
fn psbt_holds_scripts_in_order() {
    let reply = get_coinbase_psbt(vec![Ok(vec![0x6a, 0x01]), Ok(vec![0x51])]).unwrap();
    let want = "02000000 0001 00 02 0000000000000000 026a01 0000000000000000 0151 00000000";
    assert_eq!(reply.psbt.hex, want.replace(' ', ""));
}

#[test]
fn psbt_fails_with_its_first_script() {
    let first = ReadError { code: Code::Internal, message: String::from("first") };
    let second = ReadError { code: Code::Internal, message: String::from("second") };
    assert_eq!(
        get_coinbase_psbt(vec![Ok(vec![]), Err(first), Err(second)]),
        Err(RpcError::Internal { message: String::from("first") })
    );
}

#[test]
fn treasury_of_a_sidechain() {
    let ctip = Ctip { outpoint: OutPoint { txid: marked(0xaa, 0xbb), vout: 3 }, value: 5_000 };
    let n = SidechainNumber(6);
    assert_eq!(
        on_ctip(n, Ok(Some(ctip))),
        Ok(CtipStep::ReadSequence { sidechain_number: n, ctip })
    );
    assert_eq!(on_ctip(n, Ok(None)), Ok(CtipStep::Respond(GetCtipResponse { ctip: None })));
    assert_eq!(on_ctip(n, Err(read_error())), Err(status()));
    let item = get_ctip(&ctip, Ok(Some(8))).unwrap().ctip.unwrap();
    assert_eq!(item.txid.hex, marked_hex("bb", "aa"));
    assert_eq!(item.vout, 3);
    assert_eq!(item.value, 5_000);
    assert_eq!(item.sequence_number, 8);
    assert_eq!(get_ctip(&ctip, Err(read_error())), Err(status()));
}

#[test]
fn sidechains_pass_through() {
    assert_eq!(get_sidechains(Ok(vec![5, 4])).unwrap().sidechains, [5, 4]);
    assert_eq!(get_sidechains::<u8>(Err(read_error())), Err(status()));
}

#[test]
fn peg_data_leaves_out_blocks_without_any() {
    let reply = get_two_way_peg_data(Ok(vec![None, Some(2), None, Some(1)])).unwrap();
    assert_eq!(reply.blocks, [2, 1]);
    assert_eq!(get_two_way_peg_data::<u8>(Err(read_error())), Err(internal()));
}

#[test]
fn pending_bundles_go_out_as_they_come() {
    let reply = get_withdrawal_bundle_proposals(Ok(vec![
        (marked(0x0a, 0x0b), PendingM6idInfo { vote_count: 65535, proposal_height: 77 }),
        (marked(1, 2), PendingM6idInfo { vote_count: 0, proposal_height: 78 }),
    ]))
    .unwrap();
    assert_eq!(reply.proposals.len(), 2);
    assert_eq!(reply.proposals[0].m6id.hex, marked_hex("0a", "0b"));
    assert_eq!(reply.proposals[0].vote_count, 65535);
    assert_eq!(reply.proposals[0].proposal_height, 77);
    assert_eq!(reply.proposals[1].m6id.hex, marked_hex("01", "02"));
    assert_eq!(get_withdrawal_bundle_proposals(Err(read_error())), Err(internal()));
}

#[test]
fn subscriptions_pass_on_events() {
    assert_eq!(subscribe_events_item(Ok(4)), Ok(SubscribeEventsResponse { event: 4 }));
    assert_eq!(subscribe_events_item::<u8>(Err(read_error())), Err(status()));
    assert_eq!(subscribe_header_sync_progress(Some(9)), Ok(9));
    let refusal = subscribe_header_sync_progress::<u8>(None).unwrap_err();
    assert_eq!(refusal.code(), Code::Unavailable);
    assert_eq!(refusal.message(), "No header sync in progress");
}

#[test]
fn a_stop_leaves_the_shutdown_on() {
    let (cancelled, first) = stop_step(false);
    assert!(cancelled);
    assert_eq!(first, Ok(()));
    let (cancelled, second) = stop_step(cancelled);
    assert!(cancelled);
    let refusal = second.unwrap_err();
    assert_eq!(refusal.code(), Code::Unavailable);
    assert_eq!(refusal.message(), "Validator is already shutting down");
}

#[test]
fn stop_only_once() {
    assert_eq!(stop(false), Ok(()));
    let refusal = stop(true).unwrap_err();
    assert_eq!(refusal, RpcError::AlreadyShuttingDown);
    assert_eq!(refusal.code(), Code::Unavailable);
    assert_eq!(refusal.message(), "Validator is already shutting down");
}
