use validator_grpc::error::{Code, Field, RequestKind, RpcError};
use validator_grpc::order::{insert_sorted, sort};
use validator_grpc::text::{from_hex32, push_decimal, to_hex};
use validator_grpc::types::{find_entry, Ctip, Hash256, OutPoint, SidechainNumber};
use validator_grpc::wire::{ConsensusHex, Hex};

#[test]
fn hexadecimal_has_two_digits_per_byte() {
    assert_eq!(to_hex(&[]), "");
    assert_eq!(to_hex(&[0x00, 0x0f, 0xa0, 0xff]), "000fa0ff");
    assert_eq!(Hex::encode(&vec![0xde, 0xad]).hex, "dead");
}

#[test]
fn hexadecimal_reads_back() {
    let mut bytes = [0u8; 32];
    for i in 0..32u8 {
        bytes[i as usize] = 8 * i + 7;
    }
    assert_eq!(from_hex32(&to_hex(&bytes)), Some(bytes));
    assert_eq!(from_hex32(&to_hex(&bytes).to_uppercase()), Some(bytes));
    assert_eq!(from_hex32(&to_hex(&bytes[1..])), None);
}

#[test]
fn decimal_has_no_leading_zeros() {
    let mut text = String::from("n=");
    push_decimal(&mut text, 0);
    push_decimal(&mut text, 10);
    push_decimal(&mut text, u64::MAX);
    assert_eq!(text, "n=01018446744073709551615");
}

#[test]
fn consensus_bytes_stand_behind_their_length() {
    assert_eq!(ConsensusHex::encode_bytes(&vec![]).hex, "00");
    assert_eq!(ConsensusHex::encode_bytes(&vec![0xaa, 0xbb]).hex, "02aabb");
    assert_eq!(ConsensusHex::encode_bytes(&vec![1; 252]).hex[..4], *"fc01");
    assert_eq!(ConsensusHex::encode_bytes(&vec![1; 65535]).hex[..8], *"fdffff01");
    assert_eq!(ConsensusHex::encode_bytes(&vec![1; 65536]).hex[..12], *"fe0000010001");
}

#[test]
fn consensus_hashes_are_not_reversed() {
    let mut bytes = [0; 32];
    bytes[0] = 0x2a;
    assert_eq!(
        ConsensusHex::encode_hash(&Hash256(bytes)).hex,
        format!("2a{}", "00".repeat(31))
    );
}

fn ctip(value: u64) -> Ctip {
    Ctip { outpoint: OutPoint { txid: Hash256([0; 32]), vout: 0 }, value }
}

#[test]
fn sorting_is_stable() {
    let entry = |n: u8, value: u64| (SidechainNumber(n), ctip(value));
    let sorted = sort(&vec![entry(5, 1), entry(2, 2), entry(5, 3), entry(0, 4), entry(2, 5)]);
    assert_eq!(sorted, [entry(0, 4), entry(2, 2), entry(2, 5), entry(5, 1), entry(5, 3)]);
    let mut some = sorted;
    insert_sorted(&mut some, entry(2, 6));
    assert_eq!(some[3], entry(2, 6));
}

#[test]
fn lookups_find_the_entry_of_a_sidechain() {
    let map = vec![(SidechainNumber(3), 'c'), (SidechainNumber(1), 'a')];
    assert_eq!(find_entry(&map, SidechainNumber(1)), Some(&'a'));
    assert_eq!(find_entry(&map, SidechainNumber(3)), Some(&'c'));
    assert_eq!(find_entry(&map, SidechainNumber(2)), None);
}

#[test]
fn refusals_name_request_and_field() {
    let refusal = RpcError::InvalidField {
        request: RequestKind::GetTwoWayPegData,
        field: Field::EndBlockHash,
    };
    assert_eq!(refusal.code(), Code::InvalidArgument);
    assert_eq!(refusal.message(), "invalid field `end_block_hash` in `GetTwoWayPegDataRequest`");
    let names = [
        (RequestKind::GetBlockHeaderInfo, "GetBlockHeaderInfoRequest"),
        (RequestKind::GetBlockInfo, "GetBlockInfoRequest"),
        (RequestKind::GetBip300BlockDelta, "GetBip300BlockDeltaRequest"),
        (RequestKind::GetBmmHStarCommitment, "GetBmmHStarCommitmentRequest"),
        (RequestKind::SubscribeEvents, "SubscribeEventsRequest"),
    ];
    for (request, name) in names {
        assert_eq!(request.name(), name);
    }
    let fields = [
        (Field::BlockHash, "block_hash"),
        (Field::SidechainId, "sidechain_id"),
        (Field::StartBlockHash, "start_block_hash"),
    ];
    for (field, name) in fields {
        assert_eq!(field.name(), name);
    }
}

#[test]
fn refusals_carry_their_own_status() {
    let refusal = RpcError::Status { code: Code::DataLoss, message: String::from("torn page") };
    assert_eq!(refusal.code(), Code::DataLoss);
    assert_eq!(refusal.message(), "torn page");
}
