use bitcoin::hashes::Hash as _;
use validator_grpc::coinbase::{coinbase_messages, compute_id, m4_effects};
use validator_grpc::messages::{
    CoinbaseMessage, M1ProposeSidechain, M2AckSidechain, M3ProposeBundle, M4AckBundles,
    M7BmmAccept, MessageReadings, ParsedScript,
};
use validator_grpc::types::{
    Block, BlockAckBundleAction, BlockAckSidechainProposalEffect, BlockCoinbaseDiff,
    BlockCoinbaseMsg, BlockDiff, BlockEvent, BlockHeader, BlockInfo, Hash256, SidechainNumber,
    SidechainProposal, SidechainProposalId, Transaction, TxOut,
};
use validator_grpc::wire::{Bip300CoinbaseMessage, EffectAction, M2Effect, M4Effect, M4Mode, Message};

fn hash(n: u8) -> Hash256 {
    Hash256([n; 32])
}

fn hex(n: u8) -> String {
    format!("{n:02x}").repeat(32)
}

fn block(scripts: Vec<Vec<u8>>) -> Block {
    Block {
        header: BlockHeader {
            version: 1,
            prev_blockhash: hash(0),
            merkle_root: hash(0),
            time: 0,
            bits: 0,
            nonce: 0,
        },
        txdata: vec![Transaction {
            version: 2,
            lock_time: 0,
            input: vec![],
            output: scripts
                .into_iter()
                .map(|script_pubkey| TxOut { value: 0, script_pubkey })
                .collect(),
        }],
    }
}

fn parsed(message: CoinbaseMessage) -> Option<ParsedScript> {
    Some(ParsedScript { rest: vec![], message })
}

fn readings(coinbase: Vec<Option<ParsedScript>>) -> MessageReadings {
    MessageReadings { coinbase, bmm_requests: vec![] }
}

fn no_info() -> BlockInfo {
    BlockInfo { events: vec![], bmm_commitments: vec![], coinbase_txid: hash(0) }
}

fn diff(msgs: Vec<BlockCoinbaseMsg>) -> BlockDiff {
    BlockDiff { coinbase: BlockCoinbaseDiff { msgs, failed_m6ids: vec![] }, txs: vec![] }
}

fn one(message: CoinbaseMessage, info: &BlockInfo, diff: &BlockDiff) -> Bip300CoinbaseMessage {
    let mut messages =
        coinbase_messages(&block(vec![vec![0x6a]]), &readings(vec![parsed(message)]), info, diff);
    assert_eq!(messages.len(), 1);
    messages.remove(0)
}

#[test]
fn a_block_without_a_coinbase_says_nothing() {
    let mut empty = block(vec![]);
    empty.txdata.clear();
    assert!(coinbase_messages(&empty, &readings(vec![]), &no_info(), &diff(vec![])).is_empty());
}

#[test]
fn outputs_without_a_whole_message_are_left_out() {
    let vote = || CoinbaseMessage::M4AckBundles(M4AckBundles::RepeatPrevious);
    let messages = coinbase_messages(
        &block(vec![vec![1], vec![2, 3], vec![4], vec![5]]),
        &readings(vec![
            None,
            parsed(vote()),
            Some(ParsedScript { rest: vec![0], message: vote() }),
            parsed(vote()),
        ]),
        &no_info(),
        &diff(vec![]),
    );
    let seen = messages
        .iter()
        .map(|m| (m.vout, m.raw_script_pubkey.hex.as_str(), m.accepted))
        .collect::<Vec<_>>();
    assert_eq!(seen, [(1, "0203", true), (3, "05", true)]);
}

#[test]
fn a_proposed_sidechain() {
    let m1 = || {
        CoinbaseMessage::M1ProposeSidechain(M1ProposeSidechain {
            sidechain_number: SidechainNumber(3),
            description: vec![],
        })
    };
    let event = |vout, n| BlockEvent::SidechainProposal {
        vout,
        proposal: SidechainProposal { sidechain_number: SidechainNumber(n), description: vec![] },
    };
    let info = |event| BlockInfo {
        events: vec![event],
        bmm_commitments: vec![],
        coinbase_txid: hash(0),
    };
    let message = one(m1(), &info(event(0, 3)), &diff(vec![]));
    assert!(message.accepted);
    match message.message {
        Message::M1(delta) => {
            assert_eq!(delta.sidechain_number, 3);
            assert_eq!(delta.description.hex, "00");
            assert_eq!(
                delta.description_sha256d_hash.hex,
                "56944c5d3f98413ef45cf54545538103cc9f298e0575820ad3591376e2e0f65d"
            );
        }
        other => panic!("{other:?}"),
    }
    // Another output, another sidechain, no proposal at all.
    assert!(!one(m1(), &info(event(1, 3)), &diff(vec![])).accepted);
    assert!(!one(m1(), &info(event(0, 4)), &diff(vec![])).accepted);
    assert!(!one(m1(), &no_info(), &diff(vec![])).accepted);
}

#[test]
fn sidechains_are_identified_by_the_hash_of_their_description() {
    let id = compute_id(&SidechainProposal {
        sidechain_number: SidechainNumber(8),
        description: vec![1, 2, 3],
    });
    assert_eq!(id.sidechain_number, SidechainNumber(8));
    assert_eq!(
        id.description_hash.0,
        bitcoin::hashes::sha256d::Hash::hash(&[1, 2, 3]).to_byte_array()
    );
}

#[test]
fn a_vote_on_a_sidechain() {
    let m2 = || {
        CoinbaseMessage::M2AckSidechain(M2AckSidechain {
            sidechain_number: SidechainNumber(3),
            description_hash: hash(0xd5),
        })
    };
    let ack = |n, effect| BlockCoinbaseMsg::AckSidechainProposal {
        id: SidechainProposalId {
            sidechain_number: SidechainNumber(n),
            description_hash: hash(0xd5),
        },
        effect,
    };
    let effect_of = |msgs| {
        let message = one(m2(), &no_info(), &diff(msgs));
        match message.message {
            Message::M2(delta) => {
                assert_eq!(delta.sidechain_number, 3);
                assert_eq!(delta.description_sha256d_hash.hex, hex(0xd5));
                (message.accepted, delta.effect)
            }
            other => panic!("{other:?}"),
        }
    };
    let no_activation = BlockAckSidechainProposalEffect::NoActivation;
    let slot_activation = BlockAckSidechainProposalEffect::SlotActivation;
    let replace_active = BlockAckSidechainProposalEffect::ReplaceActive;
    assert_eq!(effect_of(vec![]), (false, M2Effect::RejectedOrNoop));
    assert_eq!(effect_of(vec![ack(4, no_activation)]), (false, M2Effect::RejectedOrNoop));
    assert_eq!(effect_of(vec![ack(3, no_activation)]), (true, M2Effect::NoActivation));
    assert_eq!(effect_of(vec![ack(3, slot_activation)]), (true, M2Effect::SlotActivation));
    assert_eq!(effect_of(vec![ack(3, replace_active)]), (true, M2Effect::ReplaceActive));
    assert_eq!(
        effect_of(vec![ack(4, no_activation), ack(3, replace_active), ack(3, no_activation)]),
        (true, M2Effect::ReplaceActive)
    );
}

#[test]
fn a_proposed_bundle() {
    let m3 = || {
        CoinbaseMessage::M3ProposeBundle(M3ProposeBundle {
            sidechain_number: SidechainNumber(3),
            bundle_txid: hash(0xb1),
        })
    };
    let propose = |n, id| BlockCoinbaseMsg::ProposeBundle {
        sidechain_number: SidechainNumber(n),
        m6id: hash(id),
    };
    let message = one(m3(), &no_info(), &diff(vec![propose(9, 9), propose(3, 0xb1)]));
    assert!(message.accepted);
    match message.message {
        Message::M3(delta) => {
            assert_eq!(delta.sidechain_number, 3);
            assert_eq!(delta.m6id.hex, hex(0xb1));
        }
        other => panic!("{other:?}"),
    }
    assert!(!one(m3(), &no_info(), &diff(vec![propose(3, 0xb2), propose(4, 0xb1)])).accepted);
}

#[test]
fn votes_on_bundles() {
    let votes_of = |m4| {
        let message = one(CoinbaseMessage::M4AckBundles(m4), &no_info(), &diff(vec![]));
        assert!(message.accepted);
        match message.message {
            Message::M4(delta) => {
                assert!(delta.effects.is_empty());
                (delta.mode, delta.raw_votes)
            }
            other => panic!("{other:?}"),
        }
    };
    assert_eq!(votes_of(M4AckBundles::RepeatPrevious), (M4Mode::RepeatPrevious, vec![]));
    assert_eq!(votes_of(M4AckBundles::LeadingBy50), (M4Mode::LeadingBy50, vec![]));
    assert_eq!(
        votes_of(M4AckBundles::OneByte { upvotes: vec![0, 255] }),
        (M4Mode::OneByte, vec![0, 255])
    );
    assert_eq!(
        votes_of(M4AckBundles::TwoBytes { upvotes: vec![65535, 256] }),
        (M4Mode::TwoBytes, vec![65535, 256])
    );
}

#[test]
fn a_commitment_to_a_sidechain_block() {
    let m7 = || {
        CoinbaseMessage::M7BmmAccept(M7BmmAccept {
            sidechain_number: SidechainNumber(3),
            sidechain_block_hash: hash(0x57),
        })
    };
    let info = |n, h| BlockInfo {
        events: vec![],
        bmm_commitments: vec![(SidechainNumber(0), hash(0x57)), (SidechainNumber(n), hash(h))],
        coinbase_txid: hash(0),
    };
    let message = one(m7(), &info(3, 0x57), &diff(vec![]));
    assert!(message.accepted);
    match message.message {
        Message::M7(delta) => {
            assert_eq!(delta.sidechain_number, 3);
            assert_eq!(delta.hstar.hex, hex(0x57));
        }
        other => panic!("{other:?}"),
    }
    assert!(!one(m7(), &info(3, 0x58), &diff(vec![])).accepted);
    assert!(!one(m7(), &info(4, 0x57), &diff(vec![])).accepted);
}

fn alarm(n: u8, ids: &[u8]) -> (SidechainNumber, BlockAckBundleAction) {
    (
        SidechainNumber(n),
        BlockAckBundleAction::Alarm {
            positive_votes_proposals: ids.iter().map(|id| hash(*id)).collect(),
        },
    )
}

fn upvote(n: u8, id: u8, others: &[u8]) -> (SidechainNumber, BlockAckBundleAction) {
    (
        SidechainNumber(n),
        BlockAckBundleAction::Upvote {
            m6id: hash(id),
            downvoted_others: others.iter().map(|id| hash(*id)).collect(),
        },
    )
}

fn effects(acks: Vec<(SidechainNumber, BlockAckBundleAction)>) -> Vec<M4Effect> {
    m4_effects(&diff(vec![
        BlockCoinbaseMsg::ProposeBundle { sidechain_number: SidechainNumber(1), m6id: hash(1) },
        BlockCoinbaseMsg::AckBundles(acks),
        BlockCoinbaseMsg::AckBundles(vec![alarm(99, &[])]),
    ]))
}

#[test]
fn effects_come_in_the_order_of_sidechains() {
    let effects = effects(vec![upvote(7, 0xaa, &[0xcc, 0xbb]), alarm(2, &[0x30, 0x10, 0x20])]);
    assert_eq!(effects.len(), 2);
    assert_eq!(effects[0].sidechain_number, 2);
    assert_eq!(effects[0].action, EffectAction::Alarm);
    assert_eq!(effects[0].upvoted_m6id, None);
    let ids = effects[0].downvoted_m6ids.iter().map(|m| m.hex.clone()).collect::<Vec<_>>();
    assert_eq!(ids, [hex(0x10), hex(0x20), hex(0x30)]);
    assert_eq!(effects[1].sidechain_number, 7);
    assert_eq!(effects[1].action, EffectAction::Upvote);
    assert_eq!(effects[1].upvoted_m6id.as_ref().unwrap().hex, hex(0xaa));
    // Those that an upvote pushed down stay as they come.
    let ids = effects[1].downvoted_m6ids.iter().map(|m| m.hex.clone()).collect::<Vec<_>>();
    assert_eq!(ids, [hex(0xcc), hex(0xbb)]);
}

#[test]
fn effects_do_not_depend_on_the_order_of_maps() {
    assert_eq!(
        effects(vec![alarm(5, &[3, 1, 2]), upvote(1, 8, &[9]), alarm(4, &[])]),
        effects(vec![alarm(4, &[]), alarm(5, &[1, 2, 3]), upvote(1, 8, &[9])])
    );
}

#[test]
fn no_votes_have_no_effects() {
    assert!(m4_effects(&diff(vec![])).is_empty());
    assert!(effects(vec![]).is_empty());
}
