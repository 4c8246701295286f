//! What the coinbase of a block says about sidechains, and what came of it.
use vstd::prelude::*;

use crate::chain::{sha256d, sha256d_of};
use crate::error::{display_hash, reverse_hex};
use crate::messages::{CoinbaseMessage, M4AckBundles, MessageReadings};
use crate::order::{by_key, insert_sorted, items, sort, stable_sort};
use crate::search::{find_map, find_map_step, places};
use crate::text::hex;
use crate::types::{
    find_entry, lookup, Block, BlockAckBundleAction, BlockAckSidechainProposalEffect,
    BlockCoinbaseMsg, BlockDiff, BlockEvent, BlockInfo, Hash256, M6id, SidechainNumber,
    SidechainProposal, SidechainProposalId, TxOut,
};
use crate::wire::{
    bytes_hex, hash_hex, views, views_push, Bip300CoinbaseMessage, Bip300CoinbaseMessageView,
    ConsensusHex, EffectAction, Hex, M1Delta, M2Delta, M2Effect, M3Delta, M4Delta, M4Effect,
    M4EffectView, M4Mode, M7Delta, Message, MessageView, ReverseHex,
};

verus! {

/// The votes on bundles that a change holds, if it holds any.
pub open spec fn acks_in() -> spec_fn(BlockCoinbaseMsg) -> Option<
    Seq<(SidechainNumber, BlockAckBundleAction)>,
> {
    |msg: BlockCoinbaseMsg|
        match msg {
            BlockCoinbaseMsg::AckBundles(acks) => Some(acks@),
            _ => None,
        }
}

/// What the votes of a block did to the bundles of one sidechain. The bundles of
/// an alarm go out in the order of their identifiers, those that an upvote
/// pushed down as they come.
pub open spec fn effect_view(ack: (SidechainNumber, BlockAckBundleAction)) -> M4EffectView {
    match ack.1 {
        BlockAckBundleAction::Alarm { positive_votes_proposals } => M4EffectView {
            sidechain_number: ack.0.0 as u32,
            action: EffectAction::Alarm,
            upvoted_m6id: None,
            downvoted_m6ids: stable_sort(
                positive_votes_proposals@,
                by_key::<Hash256>(),
            ).map_values(|m6id: Hash256| hash_hex(m6id)),
        },
        BlockAckBundleAction::Upvote { m6id, downvoted_others } => M4EffectView {
            sidechain_number: ack.0.0 as u32,
            action: EffectAction::Upvote,
            upvoted_m6id: Some(hash_hex(m6id)),
            downvoted_m6ids: downvoted_others@.map_values(|m6id: Hash256| hash_hex(m6id)),
        },
    }
}

/// What the first votes on bundles among the changes of a block did, in the order
/// of the sidechains.
pub open spec fn m4_effects_view(msgs: Seq<BlockCoinbaseMsg>) -> Seq<M4EffectView> {
    match find_map(msgs, acks_in()) {
        Some(acks) => stable_sort(
            acks.map_values(|ack: (SidechainNumber, BlockAckBundleAction)| effect_view(ack)),
            by_key::<M4Effect>(),
        ),
        None => Seq::empty(),
    }
}

/// Finds the votes on bundles among the changes of a block.
fn find_acks(msgs: &Vec<BlockCoinbaseMsg>) -> (r: Option<
    &Vec<(SidechainNumber, BlockAckBundleAction)>,
>)
    ensures
        match r {
            Some(acks) => find_map(msgs@, acks_in()) == Some(acks@),
            None => find_map(msgs@, acks_in()) is None,
        },
{
    assert(msgs@.skip(0) =~= msgs@);
    for i in 0..msgs.len()
        invariant
            find_map(msgs@, acks_in()) == find_map(msgs@.skip(i as int), acks_in()),
    {
        proof {
            find_map_step(msgs@, acks_in(), i as int);
        }
        if let BlockCoinbaseMsg::AckBundles(acks) = &msgs[i] {
            return Some(acks);
        }
    }
    None
}

/// Writes what the votes of a block did to the bundles of one sidechain.
fn effect(ack: &(SidechainNumber, BlockAckBundleAction)) -> (r: M4Effect)
    ensures
        r@ == effect_view(*ack),
{
    match &ack.1 {
        BlockAckBundleAction::Alarm { positive_votes_proposals } => {
            let downvoted = sort(positive_votes_proposals);
            proof {
                assert(items(positive_votes_proposals@) =~= positive_votes_proposals@);
                assert(items(downvoted@) =~= downvoted@);
            }
            M4Effect {
                sidechain_number: ack.0.0 as u32,
                action: EffectAction::Alarm,
                upvoted_m6id: None,
                downvoted_m6ids: ConsensusHex::encode_hashes(&downvoted),
            }
        },
        BlockAckBundleAction::Upvote { m6id, downvoted_others } => M4Effect {
            sidechain_number: ack.0.0 as u32,
            action: EffectAction::Upvote,
            upvoted_m6id: Some(ConsensusHex::encode_hash(m6id)),
            downvoted_m6ids: ConsensusHex::encode_hashes(downvoted_others),
        },
    }
}

/// What the votes of a block did to bundles, in the order of the sidechains.
pub fn m4_effects(block_diff: &BlockDiff) -> (r: Vec<M4Effect>)
    ensures
        views(r@) == m4_effects_view(block_diff.coinbase.msgs@),
{
    let mut effects: Vec<M4Effect> = Vec::new();
    let acks = match find_acks(&block_diff.coinbase.msgs) {
        Some(acks) => acks,
        None => {
            assert(views(effects@) =~= Seq::empty());
            return effects;
        },
    };
    let ghost f = |ack: (SidechainNumber, BlockAckBundleAction)| effect_view(ack);
    let ghost key = by_key::<M4Effect>();
    assert(items(effects@) =~= stable_sort(acks@.take(0).map_values(f), key));
    for i in 0..acks.len()
        invariant
            f == (|ack: (SidechainNumber, BlockAckBundleAction)| effect_view(ack)),
            key == by_key::<M4Effect>(),
            items(effects@) == stable_sort(acks@.take(i as int).map_values(f), key),
    {
        proof {
            let next = acks@.take(i + 1).map_values(f);
            assert(next.drop_last() =~= acks@.take(i as int).map_values(f));
            assert(next.last() == effect_view(acks@[i as int]));
        }
        insert_sorted(&mut effects, effect(&acks[i]));
    }
    assert(acks@.take(acks@.len() as int) =~= acks@);
    assert(views(effects@) =~= items(effects@));
    effects
}

/// Event `event` proposes, in output `vout`, the sidechain that `number` and
/// `description_hash` identify.
pub open spec fn proposes(
    event: BlockEvent,
    vout: u32,
    number: SidechainNumber,
    description_hash: Seq<u8>,
) -> bool {
    match event {
        BlockEvent::SidechainProposal { vout: v, proposal } => v == vout
            && proposal.sidechain_number == number && sha256d_of(proposal.description@)
            == description_hash,
        _ => false,
    }
}

/// What came of a vote on sidechain `id`, if a change says so.
pub open spec fn ack_effect(id: SidechainProposalId) -> spec_fn(BlockCoinbaseMsg) -> Option<
    BlockAckSidechainProposalEffect,
> {
    |msg: BlockCoinbaseMsg|
        match msg {
            BlockCoinbaseMsg::AckSidechainProposal { id: other, effect } => if other == id {
                Some(effect)
            } else {
                None
            },
            _ => None,
        }
}

/// Change `msg` proposes bundle `m6id` of sidechain `number`.
pub open spec fn proposes_bundle(
    msg: BlockCoinbaseMsg,
    number: SidechainNumber,
    m6id: M6id,
) -> bool {
    match msg {
        BlockCoinbaseMsg::ProposeBundle { sidechain_number, m6id: other } => sidechain_number
            == number && other == m6id,
        _ => false,
    }
}

/// What came of a vote on a sidechain.
pub open spec fn m2_effect(effect: Option<BlockAckSidechainProposalEffect>) -> M2Effect {
    match effect {
        Some(BlockAckSidechainProposalEffect::NoActivation) => M2Effect::NoActivation,
        Some(BlockAckSidechainProposalEffect::SlotActivation) => M2Effect::SlotActivation,
        Some(BlockAckSidechainProposalEffect::ReplaceActive) => M2Effect::ReplaceActive,
        None => M2Effect::RejectedOrNoop,
    }
}

/// The form of a vote on bundles.
pub open spec fn m4_mode(m4: M4AckBundles) -> M4Mode {
    match m4 {
        M4AckBundles::RepeatPrevious => M4Mode::RepeatPrevious,
        M4AckBundles::OneByte { .. } => M4Mode::OneByte,
        M4AckBundles::TwoBytes { .. } => M4Mode::TwoBytes,
        M4AckBundles::LeadingBy50 => M4Mode::LeadingBy50,
    }
}

/// The votes on bundles as they stand in the message.
pub open spec fn m4_votes(m4: M4AckBundles) -> Seq<u32> {
    match m4 {
        M4AckBundles::RepeatPrevious => Seq::empty(),
        M4AckBundles::OneByte { upvotes } => upvotes@.map_values(|v: u8| v as u32),
        M4AckBundles::TwoBytes { upvotes } => upvotes@.map_values(|v: u16| v as u32),
        M4AckBundles::LeadingBy50 => Seq::empty(),
    }
}

/// Whether the message in output `vout` took effect. A vote on bundles always
/// does.
pub open spec fn accepted(
    message: CoinbaseMessage,
    vout: u32,
    block_info: BlockInfo,
    block_diff: BlockDiff,
) -> bool {
    match message {
        CoinbaseMessage::M1ProposeSidechain(m1) => exists|i: int|
            0 <= i < block_info.events@.len() && proposes(
                #[trigger] block_info.events@[i],
                vout,
                m1.sidechain_number,
                sha256d_of(m1.description@),
            ),
        CoinbaseMessage::M2AckSidechain(m2) => find_map(
            block_diff.coinbase.msgs@,
            ack_effect(
                SidechainProposalId {
                    sidechain_number: m2.sidechain_number,
                    description_hash: m2.description_hash,
                },
            ),
        ) is Some,
        CoinbaseMessage::M3ProposeBundle(m3) => exists|i: int|
            0 <= i < block_diff.coinbase.msgs@.len() && proposes_bundle(
                #[trigger] block_diff.coinbase.msgs@[i],
                m3.sidechain_number,
                m3.bundle_txid,
            ),
        CoinbaseMessage::M4AckBundles(_) => true,
        CoinbaseMessage::M7BmmAccept(m7) => lookup(
            block_info.bmm_commitments@,
            m7.sidechain_number,
        ) == Some(m7.sidechain_block_hash),
    }
}

/// A message as it goes out.
pub open spec fn message_view(message: CoinbaseMessage, block_diff: BlockDiff) -> MessageView {
    match message {
        CoinbaseMessage::M1ProposeSidechain(m1) => MessageView::M1 {
            sidechain_number: m1.sidechain_number.0 as u32,
            description: bytes_hex(m1.description@),
            description_sha256d_hash: reverse_hex(sha256d_of(m1.description@)),
        },
        CoinbaseMessage::M2AckSidechain(m2) => MessageView::M2 {
            sidechain_number: m2.sidechain_number.0 as u32,
            description_sha256d_hash: display_hash(m2.description_hash),
            effect: m2_effect(
                find_map(
                    block_diff.coinbase.msgs@,
                    ack_effect(
                        SidechainProposalId {
                            sidechain_number: m2.sidechain_number,
                            description_hash: m2.description_hash,
                        },
                    ),
                ),
            ),
        },
        CoinbaseMessage::M3ProposeBundle(m3) => MessageView::M3 {
            sidechain_number: m3.sidechain_number.0 as u32,
            m6id: hash_hex(m3.bundle_txid),
        },
        CoinbaseMessage::M4AckBundles(m4) => MessageView::M4 {
            mode: m4_mode(m4),
            raw_votes: m4_votes(m4),
            effects: m4_effects_view(block_diff.coinbase.msgs@),
        },
        CoinbaseMessage::M7BmmAccept(m7) => MessageView::M7 {
            sidechain_number: m7.sidechain_number.0 as u32,
            hstar: hash_hex(m7.sidechain_block_hash),
        },
    }
}

/// The message of coinbase output `i`: one that fills the whole script.
pub open spec fn message_at(
    outputs: Seq<TxOut>,
    readings: MessageReadings,
    block_info: BlockInfo,
    block_diff: BlockDiff,
) -> spec_fn(int) -> Option<Bip300CoinbaseMessageView> {
    |i: int|
        match readings.output(i) {
            Some(script) => if script.rest@.len() == 0 {
                Some(
                    Bip300CoinbaseMessageView {
                        vout: i as u32,
                        raw_script_pubkey: hex(outputs[i].script_pubkey@),
                        accepted: accepted(script.message, i as u32, block_info, block_diff),
                        message: message_view(script.message, block_diff),
                    },
                )
            } else {
                None
            },
            None => None,
        }
}

/// The messages of the coinbase outputs in their order.
pub open spec fn coinbase_messages_view(
    block: Block,
    readings: MessageReadings,
    block_info: BlockInfo,
    block_diff: BlockDiff,
) -> Seq<Bip300CoinbaseMessageView> {
    if block.txdata@.len() == 0 {
        Seq::empty()
    } else {
        let outputs = block.txdata@[0].output@;
        places(outputs.len()).filter_map(
            message_at(outputs, readings, block_info, block_diff),
        )
    }
}

/// The identifier of a proposed sidechain.
pub fn compute_id(proposal: &SidechainProposal) -> (r: SidechainProposalId)
    ensures
        r.sidechain_number == proposal.sidechain_number,
        r.description_hash@ == sha256d_of(proposal.description@),
{
    SidechainProposalId {
        sidechain_number: proposal.sidechain_number,
        description_hash: sha256d(&proposal.description),
    }
}

/// Whether an event proposes sidechain `id` in output `vout`.
fn is_proposed(events: &Vec<BlockEvent>, vout: u32, id: &SidechainProposalId) -> (r: bool)
    ensures
        r == exists|i: int|
            0 <= i < events@.len() && proposes(
                #[trigger] events@[i],
                vout,
                id.sidechain_number,
                id.description_hash@,
            ),
{
    for i in 0..events.len()
        invariant
            forall|j: int|
                0 <= j < i ==> !proposes(
                    #[trigger] events@[j],
                    vout,
                    id.sidechain_number,
                    id.description_hash@,
                ),
    {
        if let BlockEvent::SidechainProposal { vout: v, proposal } = &events[i] {
            if *v == vout {
                let other = compute_id(proposal);
                if other.sidechain_number == id.sidechain_number && other.description_hash.same(
                    &id.description_hash,
                ) {
                    assert(proposes(
                        events@[i as int],
                        vout,
                        id.sidechain_number,
                        id.description_hash@,
                    ));
                    return true;
                }
            }
        }
    }
    false
}

/// Finds what came of a vote on sidechain `id`.
fn find_ack_effect(msgs: &Vec<BlockCoinbaseMsg>, id: &SidechainProposalId) -> (r: Option<
    BlockAckSidechainProposalEffect,
>)
    ensures
        r == find_map(msgs@, ack_effect(*id)),
{
    assert(msgs@.skip(0) =~= msgs@);
    for i in 0..msgs.len()
        invariant
            find_map(msgs@, ack_effect(*id)) == find_map(msgs@.skip(i as int), ack_effect(*id)),
    {
        proof {
            find_map_step(msgs@, ack_effect(*id), i as int);
        }
        if let BlockCoinbaseMsg::AckSidechainProposal { id: other, effect } = &msgs[i] {
            if other.same(id) {
                return Some(*effect);
            }
        }
    }
    None
}

/// Whether a change proposes bundle `m6id` of sidechain `number`.
fn is_bundle_proposed(
    msgs: &Vec<BlockCoinbaseMsg>,
    number: SidechainNumber,
    m6id: &M6id,
) -> (r: bool)
    ensures
        r == exists|i: int|
            0 <= i < msgs@.len() && proposes_bundle(#[trigger] msgs@[i], number, *m6id),
{
    for i in 0..msgs.len()
        invariant
            forall|j: int|
                0 <= j < i ==> !proposes_bundle(#[trigger] msgs@[j], number, *m6id),
    {
        if let BlockCoinbaseMsg::ProposeBundle { sidechain_number, m6id: other } = &msgs[i] {
            if *sidechain_number == number && other.same(m6id) {
                assert(proposes_bundle(msgs@[i as int], number, *m6id));
                return true;
            }
        }
    }
    false
}

/// Whether the block commits to `hash` for sidechain `number`.
pub fn is_committed(
    commitments: &Vec<(SidechainNumber, Hash256)>,
    number: SidechainNumber,
    hash: &Hash256,
) -> (r: bool)
    ensures
        r == (lookup(commitments@, number) == Some(*hash)),
{
    match find_entry(commitments, number) {
        Some(commitment) => commitment.same(hash),
        None => false,
    }
}

/// The form of a vote on bundles, and the votes as they stand in the message.
fn mode_and_votes(m4: &M4AckBundles) -> (r: (M4Mode, Vec<u32>))
    ensures
        r.0 == m4_mode(*m4),
        r.1@ == m4_votes(*m4),
{
    let mut votes: Vec<u32> = Vec::new();
    let mode = match m4 {
        M4AckBundles::RepeatPrevious => M4Mode::RepeatPrevious,
        M4AckBundles::OneByte { upvotes } => {
            for i in 0..upvotes.len()
                invariant
                    votes@ == upvotes@.take(i as int).map_values(|v: u8| v as u32),
            {
                votes.push(upvotes[i] as u32);
                assert(votes@ =~= upvotes@.take(i + 1).map_values(|v: u8| v as u32));
            }
            assert(upvotes@.take(upvotes@.len() as int) =~= upvotes@);
            M4Mode::OneByte
        },
        M4AckBundles::TwoBytes { upvotes } => {
            for i in 0..upvotes.len()
                invariant
                    votes@ == upvotes@.take(i as int).map_values(|v: u16| v as u32),
            {
                votes.push(upvotes[i] as u32);
                assert(votes@ =~= upvotes@.take(i + 1).map_values(|v: u16| v as u32));
            }
            assert(upvotes@.take(upvotes@.len() as int) =~= upvotes@);
            M4Mode::TwoBytes
        },
        M4AckBundles::LeadingBy50 => M4Mode::LeadingBy50,
    };
    (mode, votes)
}

/// Writes the message in output `vout`, and says whether it took effect.
pub fn coinbase_message(
    message: &CoinbaseMessage,
    vout: u32,
    block_info: &BlockInfo,
    block_diff: &BlockDiff,
) -> (r: (bool, Message))
    ensures
        r.0 == accepted(*message, vout, *block_info, *block_diff),
        r.1@ == message_view(*message, *block_diff),
{
    let msgs = &block_diff.coinbase.msgs;
    match message {
        CoinbaseMessage::M1ProposeSidechain(m1) => {
            let id = SidechainProposalId {
                sidechain_number: m1.sidechain_number,
                description_hash: sha256d(&m1.description),
            };
            let delta = M1Delta {
                sidechain_number: m1.sidechain_number.0 as u32,
                description: ConsensusHex::encode_bytes(&m1.description),
                description_sha256d_hash: ReverseHex::encode(&id.description_hash),
            };
            (is_proposed(&block_info.events, vout, &id), Message::M1(delta))
        },
        CoinbaseMessage::M2AckSidechain(m2) => {
            let id = SidechainProposalId {
                sidechain_number: m2.sidechain_number,
                description_hash: m2.description_hash,
            };
            let found = find_ack_effect(msgs, &id);
            let effect = match found {
                Some(BlockAckSidechainProposalEffect::NoActivation) => M2Effect::NoActivation,
                Some(BlockAckSidechainProposalEffect::SlotActivation) => M2Effect::SlotActivation,
                Some(BlockAckSidechainProposalEffect::ReplaceActive) => M2Effect::ReplaceActive,
                None => M2Effect::RejectedOrNoop,
            };
            let delta = M2Delta {
                sidechain_number: m2.sidechain_number.0 as u32,
                description_sha256d_hash: ReverseHex::encode(&m2.description_hash),
                effect,
            };
            (found.is_some(), Message::M2(delta))
        },
        CoinbaseMessage::M3ProposeBundle(m3) => {
            let delta = M3Delta {
                sidechain_number: m3.sidechain_number.0 as u32,
                m6id: ConsensusHex::encode_hash(&m3.bundle_txid),
            };
            (
                is_bundle_proposed(msgs, m3.sidechain_number, &m3.bundle_txid),
                Message::M3(delta),
            )
        },
        CoinbaseMessage::M4AckBundles(m4) => {
            let (mode, raw_votes) = mode_and_votes(m4);
            (true, Message::M4(M4Delta { mode, raw_votes, effects: m4_effects(block_diff) }))
        },
        CoinbaseMessage::M7BmmAccept(m7) => {
            let delta = M7Delta {
                sidechain_number: m7.sidechain_number.0 as u32,
                hstar: ConsensusHex::encode_hash(&m7.sidechain_block_hash),
            };
            (
                is_committed(
                    &block_info.bmm_commitments,
                    m7.sidechain_number,
                    &m7.sidechain_block_hash,
                ),
                Message::M7(delta),
            )
        },
    }
}

/// The messages of a block's coinbase, in the order of its outputs.
pub fn coinbase_messages(
    block: &Block,
    readings: &MessageReadings,
    block_info: &BlockInfo,
    block_diff: &BlockDiff,
) -> (r: Vec<Bip300CoinbaseMessage>)
    ensures
        views(r@) == coinbase_messages_view(*block, *readings, *block_info, *block_diff),
{
    broadcast use views_push;

    let mut messages: Vec<Bip300CoinbaseMessage> = Vec::new();
    assert(views(messages@) =~= Seq::empty());
    if block.txdata.len() == 0 {
        return messages;
    }
    let outputs = &block.txdata[0].output;
    let ghost all = places(outputs@.len());
    let ghost f = message_at(outputs@, *readings, *block_info, *block_diff);
    for vout in 0..outputs.len()
        invariant
            all == places(outputs@.len()),
            f == message_at(outputs@, *readings, *block_info, *block_diff),
            views(messages@) == all.take(vout as int).filter_map(f),
    {
        let ghost before = views(messages@);
        proof {
            all.lemma_filter_map_take_succ(f, vout as int);
        }
        if let Some(script) = readings.get_output(vout) {
            if script.rest.len() == 0 {
                let (accepted, message) = coinbase_message(
                    &script.message,
                    vout as u32,
                    block_info,
                    block_diff,
                );
                let written = Bip300CoinbaseMessage {
                    vout: vout as u32,
                    raw_script_pubkey: Hex::encode(&outputs[vout].script_pubkey),
                    accepted,
                    message,
                };
                assert(f(vout as int) == Some(written@));
                messages.push(written);
                assert(views(messages@) == before.push(written@));
            }
        }
    }
    assert(all.take(all.len() as int) =~= all);
    messages
}

} // verus!
