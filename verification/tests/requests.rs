use validator_grpc::error::{Code, Field, RequestKind, RpcError, MAX_BIP300_BLOCK_DELTA_ANCESTORS};
use validator_grpc::messages::{
    CoinbaseMessage, M1ProposeSidechain, M2AckSidechain, M3ProposeBundle, M4AckBundles,
};
use validator_grpc::request::{
    get_bip300_block_delta_query, get_block_header_info_query, get_block_info_query,
    get_bmm_h_star_commitment_query, get_coinbase_psbt_messages, get_ctip_query,
    get_two_way_peg_data_query, get_withdrawal_bundle_proposals_query, parse_sidechain_id,
    subscribe_events_query, AncestorsQuery, GetBip300BlockDeltaRequest, GetBlockHeaderInfoRequest,
    GetBlockInfoRequest, GetBmmHStarCommitmentRequest, GetCoinbasePsbtRequest, GetCtipRequest,
    GetTwoWayPegDataRequest, GetWithdrawalBundleProposalsRequest, SidechainAncestorsQuery,
    SubscribeEventsRequest,
};
use validator_grpc::types::{Hash256, SidechainNumber};
use validator_grpc::wire::ReverseHex;

fn hash() -> Hash256 {
    let mut bytes = [0; 32];
    bytes[0] = 0xef;
    bytes[1] = 0xcd;
    bytes[31] = 0x01;
    Hash256(bytes)
}

fn hash_field() -> Option<ReverseHex> {
    Some(ReverseHex { hex: format!("01{}cdef", "00".repeat(29)) })
}

fn bad_hash_field() -> Option<ReverseHex> {
    Some(ReverseHex { hex: String::from("01") })
}

fn missing(request: RequestKind, field: Field) -> RpcError {
    RpcError::MissingField { request, field }
}

fn invalid(request: RequestKind, field: Field) -> RpcError {
    RpcError::InvalidField { request, field }
}

#[test]
fn hashes_read_back_as_they_were_written() {
    let text = ReverseHex::encode(&hash());
    assert_eq!(text.hex, format!("01{}cdef", "00".repeat(29)));
    assert_eq!(text.decode(), Some(hash()));
    let upper = ReverseHex { hex: text.hex.to_uppercase() };
    assert_eq!(upper.decode(), Some(hash()));
}

#[test]
fn other_text_is_no_hash() {
    assert_eq!(ReverseHex { hex: String::new() }.decode(), None);
    assert_eq!(ReverseHex { hex: "0".repeat(63) }.decode(), None);
    assert_eq!(ReverseHex { hex: "0".repeat(65) }.decode(), None);
    assert_eq!(ReverseHex { hex: format!("{}g", "0".repeat(63)) }.decode(), None);
    assert_eq!(ReverseHex { hex: format!("{}\u{e9}", "0".repeat(63)) }.decode(), None);
}

#[test]
fn header_info_requests() {
    let kind = RequestKind::GetBlockHeaderInfo;
    assert_eq!(
        get_block_header_info_query(&GetBlockHeaderInfoRequest {
            block_hash: hash_field(),
            max_ancestors: Some(u32::MAX),
        }),
        Ok(AncestorsQuery { block_hash: hash(), max_ancestors: u32::MAX as usize })
    );
    assert_eq!(
        get_block_header_info_query(&GetBlockHeaderInfoRequest {
            block_hash: hash_field(),
            max_ancestors: None,
        }),
        Ok(AncestorsQuery { block_hash: hash(), max_ancestors: 0 })
    );
    assert_eq!(
        get_block_header_info_query(&GetBlockHeaderInfoRequest {
            block_hash: None,
            max_ancestors: None,
        }),
        Err(missing(kind, Field::BlockHash))
    );
    assert_eq!(
        get_block_header_info_query(&GetBlockHeaderInfoRequest {
            block_hash: bad_hash_field(),
            max_ancestors: None,
        }),
        Err(invalid(kind, Field::BlockHash))
    );
}

#[test]
fn block_info_requests() {
    let kind = RequestKind::GetBlockInfo;
    assert_eq!(
        get_block_info_query(&GetBlockInfoRequest {
            block_hash: hash_field(),
            sidechain_id: Some(255),
            max_ancestors: Some(2),
        }),
        Ok(SidechainAncestorsQuery {
            block_hash: hash(),
            sidechain_id: SidechainNumber(255),
            max_ancestors: 2,
        })
    );
    assert_eq!(
        get_block_info_query(&GetBlockInfoRequest {
            block_hash: hash_field(),
            sidechain_id: Some(256),
            max_ancestors: None,
        }),
        Err(invalid(kind, Field::SidechainId))
    );
    // The block is looked at before the sidechain.
    assert_eq!(
        get_block_info_query(&GetBlockInfoRequest {
            block_hash: None,
            sidechain_id: None,
            max_ancestors: None,
        }),
        Err(missing(kind, Field::BlockHash))
    );
}

#[test]
fn delta_requests_have_a_limit() {
    let query = |max_ancestors| {
        get_bip300_block_delta_query(&GetBip300BlockDeltaRequest {
            block_hash: hash_field(),
            max_ancestors,
        })
    };
    assert_eq!(MAX_BIP300_BLOCK_DELTA_ANCESTORS, 4_095);
    assert_eq!(query(None), Ok(AncestorsQuery { block_hash: hash(), max_ancestors: 0 }));
    assert_eq!(
        query(Some(4_095)),
        Ok(AncestorsQuery { block_hash: hash(), max_ancestors: 4_095 })
    );
    let refusal = query(Some(4_096)).unwrap_err();
    assert_eq!(refusal, RpcError::TooManyAncestors);
    assert_eq!(refusal.code(), Code::InvalidArgument);
    assert_eq!(refusal.message(), "max_ancestors exceeds the observer RPC limit of 4095");
    // The block is looked at before the limit.
    assert_eq!(
        get_bip300_block_delta_query(&GetBip300BlockDeltaRequest {
            block_hash: None,
            max_ancestors: Some(4_096),
        }),
        Err(missing(RequestKind::GetBip300BlockDelta, Field::BlockHash))
    );
}

#[test]
fn commitment_requests() {
    let kind = RequestKind::GetBmmHStarCommitment;
    assert_eq!(
        get_bmm_h_star_commitment_query(&GetBmmHStarCommitmentRequest {
            block_hash: hash_field(),
            sidechain_id: Some(0),
            max_ancestors: None,
        }),
        Ok(SidechainAncestorsQuery {
            block_hash: hash(),
            sidechain_id: SidechainNumber(0),
            max_ancestors: 0,
        })
    );
    assert_eq!(
        get_bmm_h_star_commitment_query(&GetBmmHStarCommitmentRequest {
            block_hash: hash_field(),
            sidechain_id: None,
            max_ancestors: None,
        }),
        Err(missing(kind, Field::SidechainId))
    );
}

#[test]
fn sidechain_fields() {
    let kind = RequestKind::GetCtip;
    let field = Field::SidechainNumber;
    assert_eq!(parse_sidechain_id(kind, field, Some(17)), Ok(SidechainNumber(17)));
    assert_eq!(get_ctip_query(&GetCtipRequest { sidechain_number: Some(3) }), Ok(SidechainNumber(3)));
    assert_eq!(
        get_ctip_query(&GetCtipRequest { sidechain_number: Some(u32::MAX) }),
        Err(invalid(kind, field))
    );
    let refusal = get_ctip_query(&GetCtipRequest { sidechain_number: None }).unwrap_err();
    assert_eq!(refusal, missing(kind, field));
    assert_eq!(refusal.code(), Code::InvalidArgument);
    assert_eq!(refusal.message(), "missing field `sidechain_number` in `GetCtipRequest`");
    assert_eq!(
        subscribe_events_query(&SubscribeEventsRequest { sidechain_id: None }),
        Err(missing(RequestKind::SubscribeEvents, Field::SidechainId))
    );
    assert_eq!(
        get_withdrawal_bundle_proposals_query(&GetWithdrawalBundleProposalsRequest {
            sidechain_id: Some(300),
        }),
        Err(invalid(RequestKind::GetTwoWayPegData, Field::SidechainId))
    );
}

#[test]
fn peg_data_requests() {
    let kind = RequestKind::GetTwoWayPegData;
    let query = get_two_way_peg_data_query(&GetTwoWayPegDataRequest {
        sidechain_id: Some(4),
        start_block_hash: None,
        end_block_hash: hash_field(),
    })
    .unwrap();
    assert_eq!(query.sidechain_id, SidechainNumber(4));
    assert_eq!(query.start_block_hash, None);
    assert_eq!(query.end_block_hash, hash());
    let query = get_two_way_peg_data_query(&GetTwoWayPegDataRequest {
        sidechain_id: Some(4),
        start_block_hash: hash_field(),
        end_block_hash: hash_field(),
    })
    .unwrap();
    assert_eq!(query.start_block_hash, Some(hash()));
    assert_eq!(
        get_two_way_peg_data_query(&GetTwoWayPegDataRequest {
            sidechain_id: Some(4),
            start_block_hash: bad_hash_field(),
            end_block_hash: None,
        }),
        Err(invalid(kind, Field::StartBlockHash))
    );
    assert_eq!(
        get_two_way_peg_data_query(&GetTwoWayPegDataRequest {
            sidechain_id: Some(4),
            start_block_hash: None,
            end_block_hash: None,
        }),
        Err(missing(kind, Field::EndBlockHash))
    );
    assert_eq!(
        get_two_way_peg_data_query(&GetTwoWayPegDataRequest {
            sidechain_id: None,
            start_block_hash: bad_hash_field(),
            end_block_hash: None,
        }),
        Err(missing(kind, Field::SidechainId))
    );
}

fn m1(n: u8) -> M1ProposeSidechain {
    M1ProposeSidechain { sidechain_number: SidechainNumber(n), description: vec![n] }
}

fn m2(n: u8) -> M2AckSidechain {
    M2AckSidechain { sidechain_number: SidechainNumber(n), description_hash: hash() }
}

fn m3(n: u8) -> M3ProposeBundle {
    M3ProposeBundle { sidechain_number: SidechainNumber(n), bundle_txid: hash() }
}

fn m4() -> CoinbaseMessage {
    CoinbaseMessage::M4AckBundles(M4AckBundles::LeadingBy50)
}

fn refusal(text: &str) -> RpcError {
    RpcError::Status { code: Code::InvalidArgument, message: String::from(text) }
}

#[test]
fn psbt_messages_come_by_kind() {
    let messages = get_coinbase_psbt_messages(GetCoinbasePsbtRequest {
        propose_sidechains: vec![Ok(m1(1)), Ok(m1(2))],
        ack_sidechains: vec![Ok(m2(3))],
        propose_bundles: vec![Ok(m3(4))],
        ack_bundles: Some(Ok(m4())),
    })
    .unwrap();
    assert_eq!(
        messages,
        [
            CoinbaseMessage::M1ProposeSidechain(m1(1)),
            CoinbaseMessage::M1ProposeSidechain(m1(2)),
            CoinbaseMessage::M2AckSidechain(m2(3)),
            CoinbaseMessage::M3ProposeBundle(m3(4)),
            m4(),
        ]
    );
}

#[test]
fn psbt_is_refused_for_its_first_bad_message() {
    assert_eq!(
        get_coinbase_psbt_messages(GetCoinbasePsbtRequest {
            propose_sidechains: vec![Ok(m1(1))],
            ack_sidechains: vec![Err(refusal("vote")), Ok(m2(1)), Err(refusal("other vote"))],
            propose_bundles: vec![Err(refusal("bundle"))],
            ack_bundles: None,
        }),
        Err(refusal("vote"))
    );
    assert_eq!(
        get_coinbase_psbt_messages(GetCoinbasePsbtRequest {
            propose_sidechains: vec![Err(refusal("sidechain"))],
            ack_sidechains: vec![Err(refusal("vote"))],
            propose_bundles: vec![],
            ack_bundles: None,
        }),
        Err(refusal("sidechain"))
    );
    assert_eq!(
        get_coinbase_psbt_messages(GetCoinbasePsbtRequest {
            propose_sidechains: vec![],
            ack_sidechains: vec![],
            propose_bundles: vec![Ok(m3(1)), Err(refusal("bundle"))],
            ack_bundles: None,
        }),
        Err(refusal("bundle"))
    );
    assert_eq!(
        get_coinbase_psbt_messages(GetCoinbasePsbtRequest {
            propose_sidechains: vec![],
            ack_sidechains: vec![],
            propose_bundles: vec![],
            ack_bundles: Some(Err(refusal("votes"))),
        }),
        Err(refusal("votes"))
    );
}

#[test]
fn psbt_needs_votes_on_bundles() {
    let refused = get_coinbase_psbt_messages(GetCoinbasePsbtRequest {
        propose_sidechains: vec![Ok(m1(1))],
        ack_sidechains: vec![],
        propose_bundles: vec![],
        ack_bundles: None,
    })
    .unwrap_err();
    assert_eq!(refused, missing(RequestKind::GetCoinbasePsbt, Field::AckBundles));
    assert_eq!(refused.message(), "missing field `ack_bundles` in `GetCoinbasePSBTRequest`");
}
