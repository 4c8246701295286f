//! What is said of a block, in terms of the block and of what was recorded of it.
use vstd::prelude::*;

use crate::bmm::{confirmed_at, confirmed_bmm_requests_view};
use crate::chain::{compact_size, sha256d_of, transaction_bytes, txid_of};
use crate::coinbase::{
    accepted, ack_effect, acks_in, coinbase_messages_view, effect_view, m4_effects_view, message_at,
    message_view, proposes, proposes_bundle,
};
use crate::delta::{block_delta, delta_headers, info_headers, AwaitTreasury, DeltaRun};
use crate::messages::{CoinbaseMessage, M4AckBundles, M8BmmRequest, MessageReadings};
use crate::order::{by_key, lex_le, stable_sort, stable_sort_is_stable, stable_sort_sorts};
use crate::search::{filter_map_keeps_order, find_map, find_map_is_first, kept};
use crate::spelling::{
    bytes_le, consensus_bytes_read_back, consensus_bytes_spell, consensus_hash_spells,
    displayed_hash_spells, hashes_are_ordered_by_bytes, hex_spells, reversed_bytes_spell, spells,
    transaction_spells,
};
use crate::treasury::Server;
use crate::types::{
    lookup, Block, BlockAckBundleAction, BlockAckSidechainProposalEffect, BlockCoinbaseMsg,
    BlockDiff, BlockEvent, BlockInfo, Hash256, HeaderInfo, SidechainNumber, SidechainProposalId,
};
use crate::wire::{
    Bip300BlockDelta, Bip300BlockDeltaView, Bip300CoinbaseMessageView, ConfirmedBmmRequestView,
    M2Effect, M4Effect, M4EffectView, MessageView,
};

verus! {

/// The first entry of sidechain `n` is `hash`.
pub open spec fn commits_to(
    commitments: Seq<(SidechainNumber, Hash256)>,
    n: SidechainNumber,
    hash: Hash256,
) -> bool {
    exists|i: int|
        #![trigger commitments[i]]
        0 <= i < commitments.len() && commitments[i] == (n, hash) && (forall|j: int|
            #![trigger commitments[j]]
            0 <= j < i ==> commitments[j].0 != n)
}

/// A lookup among commitments finds what the block commits to.
pub proof fn lookups_find_commitments(
    commitments: Seq<(SidechainNumber, Hash256)>,
    n: SidechainNumber,
    hash: Hash256,
)
    ensures
        lookup(commitments, n) == Some(hash) <==> commits_to(commitments, n, hash),
    decreases commitments.len(),
{
    if commitments.len() > 0 {
        let rest = commitments.drop_first();
        lookups_find_commitments(rest, n, hash);
        if commitments[0].0 == n {
            if commits_to(commitments, n, hash) {
                let i = choose|i: int|
                    #![trigger commitments[i]]
                    0 <= i < commitments.len() && commitments[i] == (n, hash) && (forall|j: int|
                        #![trigger commitments[j]]
                        0 <= j < i ==> commitments[j].0 != n);
                assert(i == 0) by {
                    if i > 0 {
                        assert(commitments[0].0 != n);
                    }
                }
            }
            if lookup(commitments, n) == Some(hash) {
                assert(commitments[0] == (n, hash));
            }
        } else {
            if commits_to(rest, n, hash) {
                let i = choose|i: int|
                    #![trigger rest[i]]
                    0 <= i < rest.len() && rest[i] == (n, hash) && (forall|j: int|
                        #![trigger rest[j]]
                        0 <= j < i ==> rest[j].0 != n);
                assert(commitments[i + 1] == (n, hash));
                assert forall|j: int| #![trigger commitments[j]] 0 <= j < i + 1 implies
                    commitments[j].0 != n by {
                    if j > 0 {
                        assert(rest[j - 1] == commitments[j]);
                    }
                }
            }
            if commits_to(commitments, n, hash) {
                let i = choose|i: int|
                    #![trigger commitments[i]]
                    0 <= i < commitments.len() && commitments[i] == (n, hash) && (forall|j: int|
                        #![trigger commitments[j]]
                        0 <= j < i ==> commitments[j].0 != n);
                assert(rest[i - 1] == (n, hash));
                assert forall|j: int| #![trigger rest[j]] 0 <= j < i - 1 implies rest[j].0 != n by {
                    assert(commitments[j + 1] == rest[j]);
                }
            }
        }
    }
}

/// A change says that a vote on the sidechain of number `n` and description hash
/// `hash` led to `effect`.
pub open spec fn tells_ack(
    msg: BlockCoinbaseMsg,
    n: SidechainNumber,
    hash: Hash256,
    effect: BlockAckSidechainProposalEffect,
) -> bool {
    msg matches BlockCoinbaseMsg::AckSidechainProposal { id, effect: e } && id.sidechain_number == n
        && id.description_hash == hash && e == effect
}

/// Some change says that a vote on the sidechain took effect.
pub open spec fn is_acked(msgs: Seq<BlockCoinbaseMsg>, n: SidechainNumber, hash: Hash256) -> bool {
    exists|i: int, e: BlockAckSidechainProposalEffect|
        #![trigger tells_ack(msgs[i], n, hash, e)]
        0 <= i < msgs.len() && tells_ack(msgs[i], n, hash, e)
}

/// The first change that says so says that the vote led to `effect`.
pub open spec fn first_ack_is(
    msgs: Seq<BlockCoinbaseMsg>,
    n: SidechainNumber,
    hash: Hash256,
    effect: BlockAckSidechainProposalEffect,
) -> bool {
    exists|i: int|
        #![trigger msgs[i]]
        0 <= i < msgs.len() && tells_ack(msgs[i], n, hash, effect) && (forall|
            j: int,
            e: BlockAckSidechainProposalEffect,
        |
            #![trigger tells_ack(msgs[j], n, hash, e)]
            0 <= j < i ==> !tells_ack(msgs[j], n, hash, e))
}

/// The message in output `vout` took effect, as what was recorded of the block shows.
pub open spec fn took_effect(
    message: CoinbaseMessage,
    vout: u32,
    info: BlockInfo,
    diff: BlockDiff,
) -> bool {
    let events = info.events@;
    let msgs = diff.coinbase.msgs@;
    match message {
        CoinbaseMessage::M1ProposeSidechain(m1) => exists|i: int|
            #![trigger events[i]]
            0 <= i < events.len() && (events[i] matches BlockEvent::SidechainProposal {
                vout: v,
                proposal,
            } && v == vout && proposal.sidechain_number == m1.sidechain_number && sha256d_of(
                proposal.description@,
            ) == sha256d_of(m1.description@)),
        CoinbaseMessage::M2AckSidechain(m2) => is_acked(
            msgs,
            m2.sidechain_number,
            m2.description_hash,
        ),
        CoinbaseMessage::M3ProposeBundle(m3) => exists|i: int|
            #![trigger msgs[i]]
            0 <= i < msgs.len() && msgs[i] == (BlockCoinbaseMsg::ProposeBundle {
                sidechain_number: m3.sidechain_number,
                m6id: m3.bundle_txid,
            }),
        CoinbaseMessage::M4AckBundles(_) => true,
        CoinbaseMessage::M7BmmAccept(m7) => commits_to(
            info.bmm_commitments@,
            m7.sidechain_number,
            m7.sidechain_block_hash,
        ),
    }
}

proof fn lemma_first_ack(msgs: Seq<BlockCoinbaseMsg>, n: SidechainNumber, hash: Hash256)
    ensures
        ({
            let id = SidechainProposalId {
                sidechain_number: n,
                description_hash: hash,
            };
            match find_map(msgs, ack_effect(id)) {
                Some(e) => is_acked(msgs, n, hash) && first_ack_is(msgs, n, hash, e),
                None => !is_acked(msgs, n, hash),
            }
        }),
{
    let id = SidechainProposalId { sidechain_number: n, description_hash: hash };
    let f = ack_effect(id);
    find_map_is_first(msgs, f);
    assert forall|j: int, e: BlockAckSidechainProposalEffect|
        #![trigger tells_ack(msgs[j], n, hash, e)]
        0 <= j < msgs.len() && f(msgs[j]) is None implies !tells_ack(msgs[j], n, hash, e) by {
    }
    if let Some(e) = find_map(msgs, f) {
        let i = choose|i: int|
            #![trigger msgs[i]]
            0 <= i < msgs.len() && f(msgs[i]) == Some(e) && (forall|j: int|
                #![trigger msgs[j]]
                0 <= j < i ==> f(msgs[j]) is None);
        assert(tells_ack(msgs[i], n, hash, e));
        assert forall|j: int, x: BlockAckSidechainProposalEffect|
            #![trigger tells_ack(msgs[j], n, hash, x)]
            0 <= j < i implies !tells_ack(msgs[j], n, hash, x) by {
            assert(f(msgs[j]) is None);
        }
    } else {
        assert forall|j: int, x: BlockAckSidechainProposalEffect|
            #![trigger tells_ack(msgs[j], n, hash, x)]
            0 <= j < msgs.len() implies !tells_ack(msgs[j], n, hash, x) by {
            assert(f(msgs[j]) is None);
        }
    }
}

/// A message goes out as accepted exactly where what was recorded of the block shows
/// that it took effect.
pub proof fn accepted_means_took_effect(
    message: CoinbaseMessage,
    vout: u32,
    info: BlockInfo,
    diff: BlockDiff,
)
    ensures
        accepted(message, vout, info, diff) <==> took_effect(message, vout, info, diff),
{
    match message {
        CoinbaseMessage::M1ProposeSidechain(m1) => {
            if took_effect(message, vout, info, diff) {
                let events = info.events@;
                let i = choose|i: int|
                    #![trigger events[i]]
                    0 <= i < events.len() && (events[i] matches BlockEvent::SidechainProposal {
                        vout: v,
                        proposal,
                    } && v == vout && proposal.sidechain_number == m1.sidechain_number
                        && sha256d_of(proposal.description@) == sha256d_of(m1.description@));
                assert(proposes(
                    info.events@[i],
                    vout,
                    m1.sidechain_number,
                    sha256d_of(m1.description@),
                ));
            }
        },
        CoinbaseMessage::M2AckSidechain(m2) => {
            lemma_first_ack(diff.coinbase.msgs@, m2.sidechain_number, m2.description_hash);
        },
        CoinbaseMessage::M3ProposeBundle(m3) => {
            if took_effect(message, vout, info, diff) {
                let msgs = diff.coinbase.msgs@;
                let i = choose|i: int|
                    #![trigger msgs[i]]
                    0 <= i < msgs.len() && msgs[i] == (BlockCoinbaseMsg::ProposeBundle {
                        sidechain_number: m3.sidechain_number,
                        m6id: m3.bundle_txid,
                    });
                assert(proposes_bundle(
                    diff.coinbase.msgs@[i],
                    m3.sidechain_number,
                    m3.bundle_txid,
                ));
            }
        },
        CoinbaseMessage::M4AckBundles(_) => {},
        CoinbaseMessage::M7BmmAccept(m7) => {
            lookups_find_commitments(
                info.bmm_commitments@,
                m7.sidechain_number,
                m7.sidechain_block_hash,
            );
        },
    }
}

/// `written` says what `message` says. Of a vote on a sidechain it says what the first
/// change that records the vote says it led to, and of votes on bundles it holds the
/// votes themselves, each number unchanged.
pub open spec fn says(written: MessageView, message: CoinbaseMessage, diff: BlockDiff) -> bool {
    let msgs = diff.coinbase.msgs@;
    match message {
        CoinbaseMessage::M1ProposeSidechain(m1) => {
            &&& written matches MessageView::M1 {
                sidechain_number,
                description,
                description_sha256d_hash,
            }
            &&& sidechain_number == m1.sidechain_number.0
            &&& spells(description, compact_size(m1.description@.len()) + m1.description@)
            &&& spells(description_sha256d_hash, sha256d_of(m1.description@).reverse())
        },
        CoinbaseMessage::M2AckSidechain(m2) => {
            let n = m2.sidechain_number;
            let hash = m2.description_hash;
            &&& written matches MessageView::M2 {
                sidechain_number,
                description_sha256d_hash,
                effect,
            }
            &&& sidechain_number == n.0
            &&& spells(description_sha256d_hash, hash.0@.reverse())
            &&& match effect {
                M2Effect::RejectedOrNoop => !is_acked(msgs, n, hash),
                M2Effect::NoActivation => first_ack_is(
                    msgs,
                    n,
                    hash,
                    BlockAckSidechainProposalEffect::NoActivation,
                ),
                M2Effect::SlotActivation => first_ack_is(
                    msgs,
                    n,
                    hash,
                    BlockAckSidechainProposalEffect::SlotActivation,
                ),
                M2Effect::ReplaceActive => first_ack_is(
                    msgs,
                    n,
                    hash,
                    BlockAckSidechainProposalEffect::ReplaceActive,
                ),
            }
        },
        CoinbaseMessage::M3ProposeBundle(m3) => {
            &&& written matches MessageView::M3 { sidechain_number, m6id }
            &&& sidechain_number == m3.sidechain_number.0
            &&& spells(m6id, m3.bundle_txid.0@)
        },
        CoinbaseMessage::M4AckBundles(m4) => {
            &&& written matches MessageView::M4 { mode, raw_votes, effects }
            &&& effects == m4_effects_view(msgs)
            &&& match m4 {
                M4AckBundles::RepeatPrevious => mode is RepeatPrevious && raw_votes.len() == 0,
                M4AckBundles::LeadingBy50 => mode is LeadingBy50 && raw_votes.len() == 0,
                M4AckBundles::OneByte { upvotes } => mode is OneByte && raw_votes.len()
                    == upvotes@.len() && (forall|i: int|
                    #![trigger raw_votes[i]]
                    0 <= i < raw_votes.len() ==> raw_votes[i] == upvotes@[i]),
                M4AckBundles::TwoBytes { upvotes } => mode is TwoBytes && raw_votes.len()
                    == upvotes@.len() && (forall|i: int|
                    #![trigger raw_votes[i]]
                    0 <= i < raw_votes.len() ==> raw_votes[i] == upvotes@[i]),
            }
        },
        CoinbaseMessage::M7BmmAccept(m7) => {
            &&& written matches MessageView::M7 { sidechain_number, hstar }
            &&& sidechain_number == m7.sidechain_number.0
            &&& spells(hstar, m7.sidechain_block_hash.0@)
        },
    }
}

/// A message goes out as what it says.
pub proof fn messages_say_what_they_say(message: CoinbaseMessage, diff: BlockDiff)
    ensures
        says(message_view(message, diff), message, diff),
{
    match message {
        CoinbaseMessage::M1ProposeSidechain(m1) => {
            consensus_bytes_spell(m1.description@);
            reversed_bytes_spell(sha256d_of(m1.description@));
        },
        CoinbaseMessage::M2AckSidechain(m2) => {
            displayed_hash_spells(m2.description_hash);
            lemma_first_ack(diff.coinbase.msgs@, m2.sidechain_number, m2.description_hash);
        },
        CoinbaseMessage::M3ProposeBundle(m3) => {
            consensus_hash_spells(m3.bundle_txid);
        },
        CoinbaseMessage::M4AckBundles(_) => {},
        CoinbaseMessage::M7BmmAccept(m7) => {
            consensus_hash_spells(m7.sidechain_block_hash);
        },
    }
}

/// Proposals of sidechains with different descriptions go out with different
/// descriptions.
pub proof fn descriptions_are_told_apart(
    a: CoinbaseMessage,
    b: CoinbaseMessage,
    diff_a: BlockDiff,
    diff_b: BlockDiff,
)
    ensures
        (a matches CoinbaseMessage::M1ProposeSidechain(x) && b
            matches CoinbaseMessage::M1ProposeSidechain(y) && message_view(
            a,
            diff_a,
        )->M1_description == message_view(b, diff_b)->M1_description) ==> (a
            matches CoinbaseMessage::M1ProposeSidechain(x) && b
            matches CoinbaseMessage::M1ProposeSidechain(y) && x.description@ == y.description@),
{
    match (a, b) {
        (
            CoinbaseMessage::M1ProposeSidechain(x),
            CoinbaseMessage::M1ProposeSidechain(y),
        ) => {
            if message_view(a, diff_a)->M1_description == message_view(b, diff_b)->M1_description {
                consensus_bytes_read_back(x.description@, y.description@);
            }
        },
        _ => {},
    }
}

/// Coinbase output `i` holds `message` and nothing else.
pub open spec fn holds_message(
    readings: MessageReadings,
    i: int,
    message: CoinbaseMessage,
) -> bool {
    &&& 0 <= i < readings.coinbase@.len()
    &&& readings.coinbase@[i] matches Some(script)
    &&& script.rest@.len() == 0
    &&& script.message == message
}

/// `written` is the message of coinbase output `i`.
pub open spec fn tells_output(
    written: Bip300CoinbaseMessageView,
    block: Block,
    readings: MessageReadings,
    info: BlockInfo,
    diff: BlockDiff,
    i: int,
) -> bool {
    exists|message: CoinbaseMessage|
        #![trigger holds_message(readings, i, message)]
        holds_message(readings, i, message) && written.vout == i && spells(
            written.raw_script_pubkey,
            block.txdata@[0].output@[i].script_pubkey@,
        ) && (written.accepted <==> took_effect(message, i as u32, info, diff)) && says(
            written.message,
            message,
            diff,
        )
}

/// What goes out of a coinbase is the message of each output that holds one, once and
/// in the order of the outputs, under the number of the output and with its script.
pub proof fn outputs_are_told(
    block: Block,
    readings: MessageReadings,
    info: BlockInfo,
    diff: BlockDiff,
)
    requires
        block.txdata@.len() > 0 ==> block.txdata@[0].output@.len() <= u32::MAX,
    ensures
        ({
            let written = coinbase_messages_view(block, readings, info, diff);
            if block.txdata@.len() == 0 {
                written.len() == 0
            } else {
                let n = block.txdata@[0].output@.len();
                &&& forall|k: int|
                    #![trigger written[k]]
                    0 <= k < written.len() ==> written[k].vout < n && tells_output(
                        written[k],
                        block,
                        readings,
                        info,
                        diff,
                        written[k].vout as int,
                    )
                &&& forall|k: int, l: int|
                    #![trigger written[k], written[l]]
                    0 <= k < l < written.len() ==> written[k].vout < written[l].vout
                &&& forall|i: int, message: CoinbaseMessage|
                    #![trigger holds_message(readings, i, message)]
                    0 <= i < n && holds_message(readings, i, message) ==> exists|k: int|
                        #![trigger written[k]]
                        0 <= k < written.len() && written[k].vout == i
            }
        }),
{
    if block.txdata@.len() > 0 {
        let outputs = block.txdata@[0].output@;
        let n = outputs.len();
        let at = message_at(outputs, readings, info, diff);
        let written = coinbase_messages_view(block, readings, info, diff);
        filter_map_keeps_order(n, at);
        let from = kept(n, at);
        assert forall|k: int| #![trigger written[k]] 0 <= k < written.len() implies written[k].vout
            < n && from[k] == written[k].vout && tells_output(
            written[k],
            block,
            readings,
            info,
            diff,
            written[k].vout as int,
        ) by {
            let i = from[k];
            assert(at(i) == Some(written[k]));
            let message = readings.coinbase@[i]->0.message;
            hex_spells(outputs[i].script_pubkey@);
            accepted_means_took_effect(message, i as u32, info, diff);
            messages_say_what_they_say(message, diff);
            assert(holds_message(readings, i, message));
        }
        assert forall|i: int, message: CoinbaseMessage|
            #![trigger holds_message(readings, i, message)]
            0 <= i < n && holds_message(readings, i, message) implies exists|k: int|
            #![trigger written[k]]
            0 <= k < written.len() && written[k].vout == i by {
            assert(at(i) is Some);
            let k = choose|k: int| 0 <= k < from.len() && from[k] == i;
            assert(written[k].vout == i);
        }
    }
}

/// What goes out of votes on the bundles of one sidechain. An alarm names the bundles
/// that it puts down in the order of their identifiers, none left out or added. An
/// upvote names its bundle, and those that it puts down as they came.
pub proof fn effects_name_their_bundles(n: SidechainNumber, action: BlockAckBundleAction)
    ensures
        effect_view((n, action)).sidechain_number == n.0,
        match action {
            BlockAckBundleAction::Alarm { positive_votes_proposals } => ({
                let written = effect_view((n, action));
                let downvoted = written.downvoted_m6ids;
                &&& written.action is Alarm
                &&& written.upvoted_m6id is None
                &&& exists|ids: Seq<Hash256>|
                    {
                        &&& #[trigger] ids.to_multiset() == positive_votes_proposals@.to_multiset()
                        &&& ids.len() == downvoted.len()
                        &&& forall|i: int|
                            #![trigger ids[i]]
                            0 <= i < ids.len() ==> spells(downvoted[i], ids[i].0@)
                        &&& forall|i: int, j: int|
                            #![trigger ids[i], ids[j]]
                            0 <= i < j < ids.len() ==> bytes_le(ids[i].0@, ids[j].0@)
                    }
            }),
            BlockAckBundleAction::Upvote { m6id, downvoted_others } => ({
                let written = effect_view((n, action));
                &&& written.action is Upvote
                &&& written.upvoted_m6id matches Some(id)
                &&& spells(id, m6id.0@)
                &&& written.downvoted_m6ids.len() == downvoted_others@.len()
                &&& forall|i: int|
                    #![trigger downvoted_others@[i]]
                    0 <= i < downvoted_others@.len() ==> spells(
                        written.downvoted_m6ids[i],
                        downvoted_others@[i].0@,
                    )
            }),
        },
{
    let written = effect_view((n, action));
    match action {
        BlockAckBundleAction::Alarm { positive_votes_proposals } => {
            let key = by_key::<Hash256>();
            let ids = stable_sort(positive_votes_proposals@, key);
            stable_sort_sorts(positive_votes_proposals@, key);
            assert forall|i: int| #![trigger ids[i]] 0 <= i < ids.len() implies spells(
                written.downvoted_m6ids[i],
                ids[i].0@,
            ) by {
                consensus_hash_spells(ids[i]);
            }
            assert forall|i: int, j: int|
                #![trigger ids[i], ids[j]]
                0 <= i < j < ids.len() implies bytes_le(ids[i].0@, ids[j].0@) by {
                assert(lex_le(key(ids[i]), key(ids[j])));
                hashes_are_ordered_by_bytes(ids[i], ids[j]);
            }
            assert(ids.to_multiset() == positive_votes_proposals@.to_multiset());
        },
        BlockAckBundleAction::Upvote { m6id, downvoted_others } => {
            consensus_hash_spells(m6id);
            assert forall|i: int|
                #![trigger downvoted_others@[i]]
                0 <= i < downvoted_others@.len() implies spells(
                written.downvoted_m6ids[i],
                downvoted_others@[i].0@,
            ) by {
                consensus_hash_spells(downvoted_others@[i]);
            }
        },
    }
}

/// The effects of votes are those of the first votes among the changes of a block, one
/// for each sidechain voted on, by ascending number of the sidechain. A block without
/// votes has none.
pub proof fn effects_are_of_the_first_votes(msgs: Seq<BlockCoinbaseMsg>, i: int)
    requires
        0 <= i <= msgs.len(),
        i < msgs.len() ==> msgs[i] is AckBundles,
        forall|j: int| #![trigger msgs[j]] 0 <= j < i ==> !(msgs[j] is AckBundles),
    ensures
        i == msgs.len() ==> m4_effects_view(msgs).len() == 0,
        i < msgs.len() ==> ({
            let effects = m4_effects_view(msgs);
            let acks = msgs[i]->AckBundles_0@;
            &&& effects.len() == acks.len()
            &&& effects.to_multiset() == Seq::new(
                acks.len(),
                |k: int| effect_view((acks[k].0, acks[k].1)),
            ).to_multiset()
            &&& forall|k: int, l: int|
                #![trigger effects[k], effects[l]]
                0 <= k < l < effects.len() ==> effects[k].sidechain_number
                    <= effects[l].sidechain_number
        }),
{
    let f = acks_in();
    find_map_is_first(msgs, f);
    if i < msgs.len() {
        let acks = msgs[i]->AckBundles_0@;
        assert(f(msgs[i]) == Some(acks));
        if let Some(found) = find_map(msgs, f) {
            let k = choose|k: int|
                #![trigger msgs[k]]
                0 <= k < msgs.len() && f(msgs[k]) == Some(found) && (forall|j: int|
                    #![trigger msgs[j]]
                    0 <= j < k ==> f(msgs[j]) is None);
            assert(k == i) by {
                if k < i {
                    assert(!(msgs[k] is AckBundles));
                } else if k > i {
                    assert(f(msgs[i]) is None);
                }
            }
            let g = |ack: (SidechainNumber, BlockAckBundleAction)| effect_view(ack);
            let key = by_key::<M4Effect>();
            let all = acks.map_values(g);
            stable_sort_sorts(all, key);
            let effects = m4_effects_view(msgs);
            assert(all =~= Seq::new(acks.len(), |k: int| effect_view((acks[k].0, acks[k].1))));
            assert forall|k: int, l: int|
                #![trigger effects[k], effects[l]]
                0 <= k < l < effects.len() implies effects[k].sidechain_number
                <= effects[l].sidechain_number by {
                assert(lex_le(key(effects[k]), key(effects[l])));
            }
        }
    } else {
        assert forall|j: int| #![trigger msgs[j]] 0 <= j < msgs.len() implies f(
            msgs[j],
        ) is None by {
            assert(!(msgs[j] is AckBundles));
        }
    }
}

/// Transaction `i` of the block, which is not the coinbase, asks for `request`, and the
/// block honours it: it follows the block that the request names, and commits to the
/// sidechain block that it asks for.
pub open spec fn honours_at(
    block: Block,
    readings: MessageReadings,
    info: BlockInfo,
    i: int,
    request: M8BmmRequest,
) -> bool {
    &&& 0 < i < block.txdata@.len()
    &&& i < readings.bmm_requests@.len()
    &&& readings.bmm_requests@[i] == Some(request)
    &&& commits_to(
        info.bmm_commitments@,
        request.sidechain_number,
        request.sidechain_block_hash,
    )
    &&& request.prev_mainchain_block_hash == block.header.prev_blockhash
}

/// `written` tells of the honoured request of transaction `i`: its sidechain, its
/// sidechain block, the block that it follows, and the whole transaction with its
/// identifier.
pub open spec fn tells_request(
    written: ConfirmedBmmRequestView,
    block: Block,
    readings: MessageReadings,
    info: BlockInfo,
    i: int,
) -> bool {
    exists|request: M8BmmRequest|
        #![trigger honours_at(block, readings, info, i, request)]
        honours_at(block, readings, info, i, request) && written.sidechain_number
            == request.sidechain_number.0 && spells(
            written.txid,
            txid_of(block.txdata@[i]@).reverse(),
        ) && spells(written.transaction, transaction_bytes(block.txdata@[i]@)) && spells(
            written.hstar,
            request.sidechain_block_hash.0@,
        ) && spells(
            written.previous_mainchain_block_hash,
            block.header.prev_blockhash.0@.reverse(),
        ) && written.fee_sats is None
}

/// The confirmed requests tell of the honoured requests of a block and of nothing else,
/// each once, in the order of the transactions.
pub proof fn honoured_requests_are_told(block: Block, readings: MessageReadings, info: BlockInfo)
    ensures
        ({
            let written = confirmed_bmm_requests_view(block, readings, info);
            exists|from: Seq<int>|
                {
                    &&& #[trigger] from.len() == written.len()
                    &&& forall|k: int|
                        #![trigger from[k]]
                        0 <= k < from.len() ==> tells_request(
                            written[k],
                            block,
                            readings,
                            info,
                            from[k],
                        )
                    &&& forall|k: int, l: int|
                        #![trigger from[k], from[l]]
                        0 <= k < l < from.len() ==> from[k] < from[l]
                    &&& forall|i: int, request: M8BmmRequest|
                        #![trigger honours_at(block, readings, info, i, request)]
                        honours_at(block, readings, info, i, request) ==> from.contains(i)
                }
        }),
{
    let n = block.txdata@.len();
    let at = confirmed_at(block, readings, info);
    let written = confirmed_bmm_requests_view(block, readings, info);
    let from = kept(n, at);
    filter_map_keeps_order(n, at);
    assert forall|k: int| #![trigger from[k]] 0 <= k < from.len() implies tells_request(
        written[k],
        block,
        readings,
        info,
        from[k],
    ) by {
        let i = from[k];
        assert(at(i) == Some(written[k]));
        let request = readings.bmm_requests@[i]->0;
        let tx = block.txdata@[i];
        lookups_find_commitments(
            info.bmm_commitments@,
            request.sidechain_number,
            request.sidechain_block_hash,
        );
        reversed_bytes_spell(txid_of(tx@));
        transaction_spells(tx@);
        consensus_hash_spells(request.sidechain_block_hash);
        displayed_hash_spells(request.prev_mainchain_block_hash);
        assert(honours_at(block, readings, info, i, request));
    }
    assert forall|i: int, request: M8BmmRequest|
        #![trigger honours_at(block, readings, info, i, request)]
        honours_at(block, readings, info, i, request) implies from.contains(i) by {
        lookups_find_commitments(
            info.bmm_commitments@,
            request.sidechain_number,
            request.sidechain_block_hash,
        );
        assert(at(i) is Some);
    }
    assert(from.len() == written.len());
}

/// What is said of a block is refused exactly where its transitions are, and is
/// otherwise the block's own header, the identifier of its coinbase, its messages,
/// its transitions and its honoured requests.
pub proof fn deltas_hold_every_part<H>(
    server: Server,
    header_info: HeaderInfo<H>,
    block: Block,
    readings: MessageReadings,
    info: BlockInfo,
    diff: BlockDiff,
)
    ensures
        match server.transitions(header_info.height, block, info, diff) {
            Err(e) => block_delta(server, header_info, block, readings, info, diff) == Err::<
                Bip300BlockDeltaView<H>,
                _,
            >(e),
            Ok(transitions) => {
                &&& block_delta(server, header_info, block, readings, info, diff) matches Ok(delta)
                &&& delta.header_info == header_info.wire
                &&& spells(delta.coinbase_txid, info.coinbase_txid.0@.reverse())
                &&& delta.coinbase_messages == coinbase_messages_view(block, readings, info, diff)
                &&& delta.treasury_transitions == transitions
                &&& delta.confirmed_bmm_requests == confirmed_bmm_requests_view(
                    block,
                    readings,
                    info,
                )
            },
        },
{
    displayed_hash_spells(info.coinbase_txid);
}

/// The delta that a run adds is that of the block it waits with: of the header and the
/// record that stand next in the run, the block that came, and its changes.
pub proof fn runs_add_the_delta_of_their_block<H>(wait: AwaitTreasury<H>, server: Server)
    ensures
        wait.delta(server) == block_delta(
            server,
            wait.run.header_info,
            wait.block.block,
            wait.block.readings,
            wait.run.block_info,
            wait.block_diff,
        ),
        wait.encodable() <==> wait.block.block.encodable() && wait.run.block_info.encodable(),
{
}

/// A run that has a block to read stands before that block and then the rest, the last
/// of which is kept first. A run that is done has none left. Its deltas are those made
/// so far, and its headers those of the deltas and then of the blocks left.
pub proof fn runs_keep_their_blocks<H>(run: DeltaRun<H>)
    ensures
        match run {
            DeltaRun::Next(wait) => {
                &&& run.todo().len() == wait.rest@.len() + 1
                &&& run.todo()[0] == (wait.header_info, wait.block_info)
                &&& forall|i: int|
                    #![trigger run.todo()[i]]
                    0 < i < run.todo().len() ==> run.todo()[i] == wait.rest@[wait.rest@.len() - i]
                &&& run.deltas() == wait.deltas@
            },
            DeltaRun::Done(response) => run.todo().len() == 0 && run.deltas() == response.deltas@,
        },
        run.headers().len() == run.deltas().len() + run.todo().len(),
        forall|i: int|
            #![trigger run.deltas()[i]]
            0 <= i < run.deltas().len() ==> run.headers()[i] == run.deltas()[i].header_info,
        forall|i: int|
            #![trigger run.todo()[i]]
            0 <= i < run.todo().len() ==> run.headers()[run.deltas().len() + i]
                == run.todo()[i].0.wire,
{
    match run {
        DeltaRun::Next(wait) => {
            assert(run.headers() == delta_headers(wait.deltas@) + seq![wait.header_info.wire]
                + info_headers(wait.rest@.reverse()));
        },
        DeltaRun::Done(_) => {},
    }
}

/// The headers of blocks and of deltas are their own, one by one.
pub proof fn headers_are_their_own<H>(
    infos: Seq<(HeaderInfo<H>, BlockInfo)>,
    deltas: Seq<Bip300BlockDelta<H>>,
)
    ensures
        info_headers(infos).len() == infos.len(),
        delta_headers(deltas).len() == deltas.len(),
        forall|i: int|
            #![trigger infos[i]]
            0 <= i < infos.len() ==> info_headers(infos)[i] == infos[i].0.wire,
        forall|i: int|
            #![trigger deltas[i]]
            0 <= i < deltas.len() ==> delta_headers(deltas)[i] == deltas[i].header_info,
{
}

/// The effects of votes on one sidechain keep the order of those votes.
pub proof fn effects_of_a_sidechain_keep_their_order(
    msgs: Seq<BlockCoinbaseMsg>,
    i: int,
    n: SidechainNumber,
)
    requires
        0 <= i < msgs.len(),
        msgs[i] is AckBundles,
        forall|j: int| #![trigger msgs[j]] 0 <= j < i ==> !(msgs[j] is AckBundles),
    ensures
        ({
            let acks = msgs[i]->AckBundles_0@;
            m4_effects_view(msgs).filter(|e: M4EffectView| e.sidechain_number == n.0) == Seq::new(
                acks.len(),
                |k: int| effect_view((acks[k].0, acks[k].1)),
            ).filter(|e: M4EffectView| e.sidechain_number == n.0)
        }),
{
    let f = acks_in();
    let acks = msgs[i]->AckBundles_0@;
    find_map_is_first(msgs, f);
    assert(f(msgs[i]) == Some(acks));
    if let Some(found) = find_map(msgs, f) {
        let k = choose|k: int|
            #![trigger msgs[k]]
            0 <= k < msgs.len() && f(msgs[k]) == Some(found) && (forall|j: int|
                #![trigger msgs[j]]
                0 <= j < k ==> f(msgs[j]) is None);
        assert(k == i) by {
            if k < i {
                assert(!(msgs[k] is AckBundles));
            } else if k > i {
                assert(f(msgs[i]) is None);
            }
        }
    }
    let g = |ack: (SidechainNumber, BlockAckBundleAction)| effect_view(ack);
    let key = by_key::<M4Effect>();
    let all = acks.map_values(g);
    assert(all =~= Seq::new(acks.len(), |k: int| effect_view((acks[k].0, acks[k].1))));
    let one = seq![n.0 as int];
    stable_sort_is_stable(all, key, one);
    let p = |e: M4EffectView| e.sidechain_number == n.0;
    let q = |e: M4EffectView| key(e) == one;
    assert forall|e: M4EffectView| #[trigger] p(e) == q(e) by {
        assert(key(e)[0] == e.sidechain_number as int);
        if e.sidechain_number == n.0 {
            assert(key(e) =~= one);
        } else {
            assert(key(e)[0] != one[0]);
        }
    }
    assert(p =~= q);
}

} // verus!
