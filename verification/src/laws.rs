//! What holds of the service as a whole.
use vstd::prelude::*;

use crate::bmm::{confirmed_at, confirmed_bmm_requests_view, confirmed_view, honours};
use crate::chain::sha256d_of;
use crate::coinbase::{
    accepted, ack_effect, acks_in, coinbase_messages_view, effect_view, m4_effects_view,
    message_at, message_view, proposes, proposes_bundle,
};
use crate::delta::{
    block_delta, delta_headers, info_headers, AwaitTreasury, DeltaRun, FetchedBlock,
};
use crate::error::{display_hash, Code, Field, RequestKind, RpcError};
use crate::messages::{
    CoinbaseMessage, M1ProposeSidechain, M2AckSidechain, M3ProposeBundle, MessageReadings,
};
use crate::order::{
    by_key, lex_le, sorted_by_key, stable_sort, stable_sort_ignores_order, stable_sort_sorts,
};
use crate::request::{decoded, one_message, psbt_messages, GetCoinbasePsbtRequest};
use crate::response::{
    age, commitment_of, h_star_view, psbt_transaction, stop_outcome, BmmHStarCommitmentView,
};
use crate::search::{
    filter_map_agrees, filter_map_keeps_order, find_map, find_map_agrees, kept, places,
    try_flat_map, try_flat_map_agrees, try_flat_map_all, try_flat_map_one_each, try_flat_map_stops,
};
use crate::treasury::{
    ctips_in_order, deposit_event, deposit_in, failed_entries, failed_in_order, hash_key,
    success_event, success_in, Server,
};
use crate::types::{
    distinct_sidechains, lookup, lookup_ignores_order, lookup_is_an_entry, Block,
    BlockAckBundleAction, BlockCoinbaseMsg, BlockDiff, BlockEvent, BlockInfo, BlockTx, Ctip,
    Hash256, HeaderInfo, M6id, OutPoint, PendingM6idInfo, SidechainNumber, SidechainProposalId,
};
use crate::wire::{
    reverse_hex_round_trip, views, Bip300BlockDelta, Bip300BlockDeltaView, M2Effect, M4Effect,
    M4EffectView, MessageView, TransitionKind, TreasuryTransitionView,
};

verus! {

/// The fields that a transition has, by its kind. The first deposit of a sidechain
/// has no treasury before it, every later deposit and every withdrawal has one. A
/// withdrawal that succeeded shares what the treasury lost between payouts and fee.
pub open spec fn fields_fit(t: TreasuryTransitionView, height: u32) -> bool {
    &&& t.terminal_height == Some(height)
    &&& t.sidechain_number <= u8::MAX
    &&& match t.kind {
        TransitionKind::Deposit => {
            &&& t.previous_ctip is None <==> t.sequence_number == Some(0u64)
            &&& t.new_ctip is Some
            &&& t.sequence_number is Some
            &&& t.delta_sats is Some
            &&& t.payout_sats is None
            &&& t.fee_sats is None
            &&& t.m6id is None
            &&& t.sidechain_address is Some
            &&& t.transaction is Some
            &&& t.proposal_height is None
        },
        TransitionKind::WithdrawalSucceeded => {
            &&& t.previous_ctip matches Some(previous)
            &&& t.new_ctip matches Some(new)
            &&& t.sequence_number matches Some(sequence_number)
            &&& sequence_number > 0
            &&& t.delta_sats matches Some(delta)
            &&& t.payout_sats matches Some(payout)
            &&& t.fee_sats matches Some(fee)
            &&& previous.value_sats == new.value_sats + payout + fee
            &&& delta == payout + fee
            &&& t.m6id is Some
            &&& t.sidechain_address is None
            &&& t.transaction is Some
            &&& t.proposal_height is Some
        },
        TransitionKind::WithdrawalFailed => {
            &&& t.previous_ctip is None
            &&& t.new_ctip is None
            &&& t.sequence_number is None
            &&& t.delta_sats is None
            &&& t.payout_sats is None
            &&& t.fee_sats is None
            &&& t.m6id is Some
            &&& t.sidechain_address is None
            &&& t.transaction is None
            &&& t.proposal_height is Some
        },
    }
}

/// Withdrawals conserve value: what the treasury held is what it holds now, the
/// payouts and the fee.
pub proof fn withdrawals_conserve_value(
    server: Server,
    height: u32,
    block_info: BlockInfo,
    n: SidechainNumber,
    ctip: Ctip,
    m6id: M6id,
    info: PendingM6idInfo,
)
    ensures
        server.withdrawal_transition(height, block_info, n, ctip, m6id, info) matches Ok(t) ==> {
            &&& t.kind == TransitionKind::WithdrawalSucceeded
            &&& fields_fit(t, height)
        },
{
}

/// Every transition of a block carries the height of the block and the fields of
/// its kind.
pub proof fn transitions_have_their_fields(
    server: Server,
    height: u32,
    block: Block,
    block_info: BlockInfo,
    block_diff: BlockDiff,
)
    ensures
        server.transitions(height, block, block_info, block_diff) matches Ok(ts) ==> forall|k: int|
            #![trigger ts[k]]
            0 <= k < ts.len() ==> fields_fit(ts[k], height),
{
    lemma_moved_fit(server, height, block, block_info, block_diff);
}

proof fn lemma_moved_fit(
    server: Server,
    height: u32,
    block: Block,
    block_info: BlockInfo,
    block_diff: BlockDiff,
)
    ensures
        try_flat_map(
            block_diff.txs@,
            server.tx_step(height, block, block_info),
        ) matches Ok(ts) ==> forall|k: int|
            #![trigger ts[k]]
            0 <= k < ts.len() ==> fields_fit(ts[k], height) && ts[k].kind !is WithdrawalFailed,
{
    let txs = block_diff.txs@;
    let f = server.tx_step(height, block, block_info);
    let fit = |t: TreasuryTransitionView| fields_fit(t, height) && t.kind !is WithdrawalFailed;
    if try_flat_map(txs, f) is Ok {
        assert forall|i: int, k: int|
            #![trigger f(txs[i])->Ok_0[k]]
            0 <= i < txs.len() && f(txs[i]) is Ok && 0 <= k < f(txs[i])->Ok_0.len() implies fit(
            f(txs[i])->Ok_0[k],
        ) by {
            match txs[i] {
                BlockTx::M5 { new_ctips } => {
                    let ctips = ctips_in_order(new_ctips@);
                    let g = server.deposit_step(height, block, block_info);
                    try_flat_map_all(ctips, g, fit);
                },
                BlockTx::M6 { .. } => {},
            }
        }
        try_flat_map_all(txs, f, fit);
        let ts = try_flat_map(txs, f)->Ok_0;
        assert forall|k: int| #![trigger ts[k]] 0 <= k < ts.len() implies fields_fit(ts[k], height)
            && ts[k].kind !is WithdrawalFailed by {
            assert(fit(try_flat_map(txs, f)->Ok_0[k]));
        }
    }
}

/// Bundles that failed come behind everything that moved a treasury, one
/// transition each.
pub proof fn failures_come_last(
    server: Server,
    height: u32,
    block: Block,
    block_info: BlockInfo,
    block_diff: BlockDiff,
)
    ensures
        server.transitions(height, block, block_info, block_diff) matches Ok(ts) ==> ({
            let failed = failed_entries(block_diff.coinbase.failed_m6ids@).len();
            &&& failed <= ts.len()
            &&& forall|k: int|
                #![trigger ts[k]]
                0 <= k < ts.len() ==> (ts[k].kind is WithdrawalFailed <==> k >= ts.len() - failed)
        }),
{
    lemma_moved_fit(server, height, block, block_info, block_diff);
    stable_sort_sorts(
        failed_entries(block_diff.coinbase.failed_m6ids@),
        by_key::<(SidechainNumber, M6id, PendingM6idInfo)>(),
    );
}

/// Bundles that failed come in the order of their sidechains and identifiers, and
/// none is left out or added.
pub proof fn failures_come_in_order(failed: Seq<(SidechainNumber, Vec<(M6id, PendingM6idInfo)>)>)
    ensures
        sorted_by_key(
            failed_in_order(failed),
            by_key::<(SidechainNumber, M6id, PendingM6idInfo)>(),
        ),
        failed_in_order(failed).to_multiset() == failed_entries(failed).to_multiset(),
{
    stable_sort_sorts(
        failed_entries(failed),
        by_key::<(SidechainNumber, M6id, PendingM6idInfo)>(),
    );
}

/// A deposit transaction gives one transition for each new treasury output, in the
/// order of their sidechains.
pub proof fn deposits_come_in_order(
    server: Server,
    height: u32,
    block: Block,
    block_info: BlockInfo,
    new_ctips: Vec<(SidechainNumber, Ctip)>,
)
    ensures
        (server.tx_step(height, block, block_info))(BlockTx::M5 { new_ctips }) matches Ok(ts) ==> {
            &&& ts.len() == new_ctips@.len()
            &&& forall|i: int, j: int|
                #![trigger ts[i], ts[j]]
                0 <= i < j < ts.len() ==> ts[i].sidechain_number <= ts[j].sidechain_number
        },
{
    let key = by_key::<(SidechainNumber, Ctip)>();
    let ctips = ctips_in_order(new_ctips@);
    let f = server.deposit_step(height, block, block_info);
    stable_sort_sorts(new_ctips@, key);
    if try_flat_map(ctips, f) is Ok {
        try_flat_map_one_each(ctips, f);
        let ts = try_flat_map(ctips, f)->Ok_0;
        assert forall|i: int, j: int|
            #![trigger ts[i], ts[j]]
            0 <= i < j < ts.len() implies ts[i].sidechain_number <= ts[j].sidechain_number by {
            assert(ts[i].sidechain_number == ctips[i].0.0);
            assert(ts[j].sidechain_number == ctips[j].0.0);
            assert(lex_le(key(ctips[i]), key(ctips[j])));
        }
    }
}

/// The messages of a coinbase are those of its outputs that hold one, each once,
/// in the order of the outputs.
pub proof fn coinbase_messages_follow_outputs(
    block: Block,
    readings: MessageReadings,
    block_info: BlockInfo,
    block_diff: BlockDiff,
)
    requires
        block.txdata@.len() > 0,
        block.txdata@[0].output@.len() <= u32::MAX,
    ensures
        ({
            let outputs = block.txdata@[0].output@;
            let at = message_at(outputs, readings, block_info, block_diff);
            let messages = coinbase_messages_view(block, readings, block_info, block_diff);
            &&& forall|k: int|
                #![trigger messages[k]]
                0 <= k < messages.len() ==> messages[k].vout < outputs.len() && at(
                    messages[k].vout as int,
                ) == Some(messages[k])
            &&& forall|k: int, l: int|
                #![trigger messages[k], messages[l]]
                0 <= k < l < messages.len() ==> messages[k].vout < messages[l].vout
            &&& forall|i: int|
                #![trigger at(i)]
                0 <= i < outputs.len() && at(i) is Some ==> messages.contains(at(i)->0)
        }),
{
    let outputs = block.txdata@[0].output@;
    let n = outputs.len();
    let at = message_at(outputs, readings, block_info, block_diff);
    let messages = coinbase_messages_view(block, readings, block_info, block_diff);
    filter_map_keeps_order(n, at);
    let from = kept(n, at);
    assert forall|k: int| #![trigger messages[k]] 0 <= k < messages.len() implies messages[k].vout
        < n && at(messages[k].vout as int) == Some(messages[k]) && from[k]
        == messages[k].vout by {
        assert(at(from[k]) == Some(messages[k]));
    }
    assert forall|i: int|
        #![trigger at(i)]
        0 <= i < n && at(i) is Some implies messages.contains(at(i)->0) by {
        let k = choose|k: int| 0 <= k < from.len() && from[k] == i;
        assert(at(from[k]) == Some(messages[k]));
    }
}

/// A vote on a sidechain took effect exactly where it goes out with an effect, and
/// a vote on bundles always took effect.
pub proof fn votes_are_accepted(
    message: CoinbaseMessage,
    vout: u32,
    block_info: BlockInfo,
    block_diff: BlockDiff,
)
    ensures
        message_view(message, block_diff) matches MessageView::M2 { effect, .. } ==> (accepted(
            message,
            vout,
            block_info,
            block_diff,
        ) <==> effect != M2Effect::RejectedOrNoop),
        message_view(message, block_diff) is M4 ==> accepted(message, vout, block_info, block_diff),
{
}

/// What votes did to bundles goes out in the order of the sidechains, one effect
/// for each of the first votes of the block.
pub proof fn effects_come_in_order(msgs: Seq<BlockCoinbaseMsg>)
    ensures
        sorted_by_key(m4_effects_view(msgs), by_key::<M4Effect>()),
        match find_map(msgs, acks_in()) {
            Some(acks) => m4_effects_view(msgs).to_multiset() == acks.map_values(
                |ack: (SidechainNumber, BlockAckBundleAction)| effect_view(ack),
            ).to_multiset(),
            None => m4_effects_view(msgs).len() == 0,
        },
{
    if let Some(acks) = find_map(msgs, acks_in()) {
        stable_sort_sorts(
            acks.map_values(|ack: (SidechainNumber, BlockAckBundleAction)| effect_view(ack)),
            by_key::<M4Effect>(),
        );
    }
}

/// The confirmed requests are those that the block honours, each once, in the
/// order of the transactions, and none of them stands in the coinbase.
pub proof fn confirmed_requests_are_honoured(
    block: Block,
    readings: MessageReadings,
    block_info: BlockInfo,
)
    ensures
        ({
            let n = block.txdata@.len();
            let at = confirmed_at(block, readings, block_info);
            let confirmed = confirmed_bmm_requests_view(block, readings, block_info);
            let from = kept(n, at);
            &&& from.len() == confirmed.len()
            &&& forall|k: int|
                #![trigger confirmed[k]]
                0 <= k < confirmed.len() ==> 0 < from[k] < n && (readings.request(
                    from[k],
                ) matches Some(request) && honours(block, block_info, request) && confirmed[k]
                    == confirmed_view(block.txdata@[from[k]], request)
                    && confirmed[k].previous_mainchain_block_hash == display_hash(
                    block.header.prev_blockhash,
                ))
            &&& forall|k: int, l: int|
                #![trigger from[k], from[l]]
                0 <= k < l < from.len() ==> from[k] < from[l]
            &&& forall|i: int|
                #![trigger readings.request(i)]
                0 < i < n && (readings.request(i) matches Some(request) && honours(
                    block,
                    block_info,
                    request,
                )) ==> from.contains(i)
        }),
{
    let n = block.txdata@.len();
    let at = confirmed_at(block, readings, block_info);
    let confirmed = confirmed_bmm_requests_view(block, readings, block_info);
    let from = kept(n, at);
    filter_map_keeps_order(n, at);
    assert forall|k: int| #![trigger confirmed[k]] 0 <= k < confirmed.len() implies 0 < from[k] < n
        && (readings.request(from[k]) matches Some(request) && honours(block, block_info, request)
        && confirmed[k] == confirmed_view(block.txdata@[from[k]], request)
        && confirmed[k].previous_mainchain_block_hash == display_hash(
        block.header.prev_blockhash,
    )) by {
        assert(at(from[k]) == Some(confirmed[k]));
    }
    assert forall|i: int|
        #![trigger readings.request(i)]
        0 < i < n && (readings.request(i) matches Some(request) && honours(
            block,
            block_info,
            request,
        )) implies from.contains(i) by {
        assert(at(i) is Some);
    }
}

/// What a run is answered, block by block: the block, its changes, and the server
/// that read the treasuries for it.
pub struct Answers {
    pub blocks: Seq<FetchedBlock>,
    pub diffs: Seq<BlockDiff>,
    pub servers: Seq<Server>,
}

/// The delta of block `i` of a run.
pub open spec fn delta_at<H>(
    infos: Seq<(HeaderInfo<H>, BlockInfo)>,
    answers: Answers,
) -> spec_fn(int) -> Result<Seq<Bip300BlockDeltaView<H>>, RpcError> {
    |i: int|
        match block_delta(
            answers.servers[i],
            infos[i].0,
            answers.blocks[i].block,
            answers.blocks[i].readings,
            infos[i].1,
            answers.diffs[i],
        ) {
            Ok(delta) => Ok(seq![delta]),
            Err(e) => Err(e),
        }
}

/// The deltas of all blocks of a run in their order, or the first refusal.
pub open spec fn run_deltas<H>(infos: Seq<(HeaderInfo<H>, BlockInfo)>, answers: Answers) -> Result<
    Seq<Bip300BlockDeltaView<H>>,
    RpcError,
> {
    try_flat_map(places(infos.len()), delta_at(infos, answers))
}

/// The run has made the deltas of the first `k` blocks and is left with the others.
pub open spec fn on_track<H>(
    run: DeltaRun<H>,
    infos: Seq<(HeaderInfo<H>, BlockInfo)>,
    answers: Answers,
    k: int,
) -> bool {
    &&& 0 <= k <= infos.len()
    &&& run.todo() == infos.skip(k)
    &&& try_flat_map(places(k as nat), delta_at(infos, answers)) == Ok::<_, RpcError>(
        views(run.deltas()),
    )
}

/// A run starts on track.
pub proof fn run_starts_on_track<H>(
    run: DeltaRun<H>,
    infos: Seq<(HeaderInfo<H>, BlockInfo)>,
    answers: Answers,
)
    requires
        run.todo() == infos,
        run.deltas() == Seq::<Bip300BlockDelta<H>>::empty(),
    ensures
        on_track(run, infos, answers, 0),
{
    assert(infos.skip(0) =~= infos);
    assert(views(run.deltas()) =~= Seq::<Bip300BlockDeltaView<H>>::empty());
}

/// A run stays on track from block to block, and where it ends early, it ends with
/// the first refusal.
pub proof fn run_stays_on_track<H>(
    wait: AwaitTreasury<H>,
    r: Result<DeltaRun<H>, RpcError>,
    infos: Seq<(HeaderInfo<H>, BlockInfo)>,
    answers: Answers,
    k: int,
)
    requires
        on_track(DeltaRun::Next(wait.run), infos, answers, k),
        wait.block == answers.blocks[k],
        wait.block_diff == answers.diffs[k],
        wait.goes_on(answers.servers[k], r),
    ensures
        match r {
            Ok(run) => on_track(run, infos, answers, k + 1),
            Err(e) => run_deltas(infos, answers) == Err::<Seq<Bip300BlockDeltaView<H>>, _>(e),
        },
{
    let f = delta_at(infos, answers);
    let todo = DeltaRun::Next(wait.run).todo();
    assert(todo[0] == (wait.run.header_info, wait.run.block_info));
    assert(infos.skip(k).len() == todo.len());
    assert(infos.skip(k)[0] == infos[k]);
    assert(todo.drop_first() =~= wait.run.rest@.reverse());
    assert(todo.drop_first() =~= infos.skip(k + 1));
    let next = places((k + 1) as nat);
    assert(next.drop_last() =~= places(k as nat));
    assert(next.last() == k);
    match r {
        Ok(run) => {
            let done = views(wait.run.deltas@);
            let delta = wait.delta(answers.servers[k])->Ok_0;
            assert(done + seq![delta] =~= done.push(delta));
        },
        Err(_) => {
            assert(places(infos.len()).take(k + 1) =~= next);
            try_flat_map_stops(places(infos.len()), f, k + 1);
        },
    }
}

/// A run that is done on track has the deltas of all its blocks in their order.
pub proof fn run_ends_with_all_deltas<H>(
    run: DeltaRun<H>,
    infos: Seq<(HeaderInfo<H>, BlockInfo)>,
    answers: Answers,
    k: int,
)
    requires
        on_track(run, infos, answers, k),
        run is Done,
    ensures
        k == infos.len(),
        run_deltas(infos, answers) == Ok::<_, RpcError>(views(run.deltas())),
{
    assert(infos.skip(k).len() == 0);
}

/// A finished run answers every block that it was started with, in their order.
pub proof fn finished_run_answers_every_block<H>(
    run: DeltaRun<H>,
    infos: Seq<(HeaderInfo<H>, BlockInfo)>,
)
    requires
        run is Done,
        run.headers() == info_headers(infos),
    ensures
        run.deltas().len() == infos.len(),
        forall|k: int|
            #![trigger run.deltas()[k]]
            0 <= k < infos.len() ==> run.deltas()[k].header_info == infos[k].0.wire,
{
    assert(delta_headers(run.deltas()) == info_headers(infos));
    assert(delta_headers(run.deltas()).len() == run.deltas().len());
    assert forall|k: int|
        #![trigger run.deltas()[k]]
        0 <= k < infos.len() implies run.deltas()[k].header_info == infos[k].0.wire by {
        assert(delta_headers(run.deltas())[k] == info_headers(infos)[k]);
    }
}

/// A hash that goes out in a reply can be asked for in a request.
pub proof fn replied_hash_can_be_requested(request: RequestKind, field: Field, h: Hash256)
    ensures
        decoded(request, field, display_hash(h)) == Ok::<_, RpcError>(h@),
{
    reverse_hex_round_trip(h);
}

/// A block that is found goes out with one commitment for itself and one for each
/// ancestor, each of them the block's own.
pub proof fn commitments_answer_every_block(
    block_hash: Hash256,
    sidechain_id: SidechainNumber,
    commitments: Seq<Vec<(SidechainNumber, Hash256)>>,
)
    ensures
        match h_star_view(block_hash, sidechain_id, commitments) {
            BmmHStarCommitmentView::BlockNotFound { .. } => commitments.len() == 0,
            BmmHStarCommitmentView::Commitment { commitment, ancestor_commitments } => {
                &&& commitments.len() == ancestor_commitments.len() + 1
                &&& commitment == commitment_of(sidechain_id)(commitments[0])
                &&& forall|k: int|
                    #![trigger ancestor_commitments[k]]
                    0 <= k < ancestor_commitments.len() ==> ancestor_commitments[k]
                        == commitment_of(sidechain_id)(commitments[k + 1])
            },
        },
{
}

/// A proposal at or above the tip has no age, one below the tip has the height of
/// the tip left when its age is taken off, and a new block adds one block to the
/// age of every proposal that is not above the tip.
pub proof fn proposals_age_with_the_tip(tip_height: u32, proposal_height: u32)
    ensures
        age(tip_height, proposal_height) <= tip_height,
        proposal_height >= tip_height <==> age(tip_height, proposal_height) == 0,
        proposal_height <= tip_height ==> proposal_height + age(tip_height, proposal_height)
            == tip_height,
        proposal_height <= tip_height < u32::MAX ==> age((tip_height + 1) as u32, proposal_height)
            == age(tip_height, proposal_height) + 1,
{
}

/// A coinbase template has no input and one output without value for each message.
pub proof fn psbt_carries_no_value(scripts: Seq<Seq<u8>>)
    ensures
        psbt_transaction(scripts).input.len() == 0,
        psbt_transaction(scripts).output.len() == scripts.len(),
        forall|k: int|
            #![trigger psbt_transaction(scripts).output[k]]
            0 <= k < scripts.len() ==> psbt_transaction(scripts).output[k].value == 0
                && psbt_transaction(scripts).output[k].script_pubkey == scripts[k],
{
}

/// Every message that was asked for stands in the coinbase: the proposals of
/// sidechains, the votes on them, the proposals of bundles, and one vote on bundles.
pub proof fn psbt_carries_every_message(request: GetCoinbasePsbtRequest)
    ensures
        psbt_messages(request) matches Ok(messages) ==> {
            let m1 = request.propose_sidechains@;
            let m2 = request.ack_sidechains@;
            let m3 = request.propose_bundles@;
            &&& messages.len() == m1.len() + m2.len() + m3.len() + 1
            &&& forall|i: int|
                #![trigger m1[i]]
                0 <= i < m1.len() ==> messages[i] == CoinbaseMessage::M1ProposeSidechain(
                    m1[i]->Ok_0,
                )
            &&& forall|i: int|
                #![trigger m2[i]]
                0 <= i < m2.len() ==> messages[m1.len() + i] == CoinbaseMessage::M2AckSidechain(
                    m2[i]->Ok_0,
                )
            &&& forall|i: int|
                #![trigger m3[i]]
                0 <= i < m3.len() ==> messages[m1.len() + m2.len() + i]
                    == CoinbaseMessage::M3ProposeBundle(m3[i]->Ok_0)
            &&& request.ack_bundles == Some(Ok::<_, RpcError>(messages.last()))
        },
{
    if psbt_messages(request) is Ok {
        try_flat_map_one_each(request.propose_sidechains@, one_message::<M1ProposeSidechain>());
        try_flat_map_one_each(request.ack_sidechains@, one_message::<M2AckSidechain>());
        try_flat_map_one_each(request.propose_bundles@, one_message::<M3ProposeBundle>());
    }
}

/// A stop succeeds exactly where the shutdown was not on, and leaves it on whatever
/// it is answered. A second stop in sequence is refused, and the shutdown stays on.
pub proof fn second_stop_is_refused(cancelled: bool)
    ensures
        ({
            let first = stop_outcome(cancelled);
            let second = stop_outcome(first.0);
            &&& first.1 is Ok <==> !cancelled
            &&& first.0
            &&& second.0
            &&& second.1 matches Err(refusal)
            &&& refusal == RpcError::AlreadyShuttingDown
            &&& refusal.spec_code() == Code::Unavailable
            &&& refusal.spec_message() == "Validator is already shutting down"@
        }),
{
}

/// The same entries, of one for each sidechain at most, in any order.
pub open spec fn same_map<V>(a: Seq<(SidechainNumber, V)>, b: Seq<(SidechainNumber, V)>) -> bool {
    distinct_sidechains(a) && a.to_multiset() == b.to_multiset()
}

/// The same event, with deposits in any order.
pub open spec fn same_event(a: BlockEvent, b: BlockEvent) -> bool {
    match (a, b) {
        (BlockEvent::Deposits(x), BlockEvent::Deposits(y)) => same_map(x@, y@),
        _ => a == b,
    }
}

/// The same record of a block, with each map in any order.
pub open spec fn same_info(a: BlockInfo, b: BlockInfo) -> bool {
    &&& a.events@.len() == b.events@.len()
    &&& forall|i: int|
        #![trigger a.events@[i]]
        #![trigger b.events@[i]]
        0 <= i < a.events@.len() ==> same_event(a.events@[i], b.events@[i])
    &&& same_map(a.bmm_commitments@, b.bmm_commitments@)
    &&& a.coinbase_txid == b.coinbase_txid
}

/// The same votes on the bundles of one sidechain, with the bundles of an alarm in
/// any order.
pub open spec fn same_action(a: BlockAckBundleAction, b: BlockAckBundleAction) -> bool {
    match (a, b) {
        (
            BlockAckBundleAction::Alarm { positive_votes_proposals: x },
            BlockAckBundleAction::Alarm { positive_votes_proposals: y },
        ) => x@.no_duplicates() && x@.to_multiset() == y@.to_multiset(),
        (
            BlockAckBundleAction::Upvote { m6id: x, downvoted_others: p },
            BlockAckBundleAction::Upvote { m6id: y, downvoted_others: q },
        ) => x == y && p@ == q@,
        _ => false,
    }
}

/// The same votes on bundles, of one for each sidechain at most, in any order.
pub open spec fn same_votes(
    a: Seq<(SidechainNumber, BlockAckBundleAction)>,
    b: Seq<(SidechainNumber, BlockAckBundleAction)>,
) -> bool {
    &&& distinct_sidechains(a)
    &&& distinct_sidechains(b)
    &&& forall|n: SidechainNumber|
        #![trigger lookup(a, n)]
        #![trigger lookup(b, n)]
        match (lookup(a, n), lookup(b, n)) {
            (Some(x), Some(y)) => same_action(x, y),
            (None, None) => true,
            _ => false,
        }
}

/// The same change by a coinbase message, with each map in any order.
pub open spec fn same_msg(a: BlockCoinbaseMsg, b: BlockCoinbaseMsg) -> bool {
    match (a, b) {
        (BlockCoinbaseMsg::AckBundles(x), BlockCoinbaseMsg::AckBundles(y)) => same_votes(x@, y@),
        _ => a == b,
    }
}

/// The same change by a transaction, with new treasury outputs in any order.
pub open spec fn same_tx(a: BlockTx, b: BlockTx) -> bool {
    match (a, b) {
        (BlockTx::M5 { new_ctips: x }, BlockTx::M5 { new_ctips: y }) => same_map(x@, y@),
        _ => a == b,
    }
}

/// No two bundles that failed share sidechain and identifier.
pub open spec fn distinct_bundles(entries: Seq<(SidechainNumber, M6id, PendingM6idInfo)>) -> bool {
    forall|i: int, j: int|
        #![trigger entries[i], entries[j]]
        0 <= i < entries.len() && 0 <= j < entries.len() && i != j ==> entries[i].0
            != entries[j].0 || entries[i].1 != entries[j].1
}

/// The same changes by a block, with each map in any order.
pub open spec fn same_diff(a: BlockDiff, b: BlockDiff) -> bool {
    &&& a.txs@.len() == b.txs@.len()
    &&& forall|i: int|
        #![trigger a.txs@[i]]
        #![trigger b.txs@[i]]
        0 <= i < a.txs@.len() ==> same_tx(a.txs@[i], b.txs@[i])
    &&& a.coinbase.msgs@.len() == b.coinbase.msgs@.len()
    &&& forall|i: int|
        #![trigger a.coinbase.msgs@[i]]
        #![trigger b.coinbase.msgs@[i]]
        0 <= i < a.coinbase.msgs@.len() ==> same_msg(a.coinbase.msgs@[i], b.coinbase.msgs@[i])
    &&& distinct_bundles(failed_entries(a.coinbase.failed_m6ids@))
    &&& failed_entries(a.coinbase.failed_m6ids@).to_multiset() == failed_entries(
        b.coinbase.failed_m6ids@,
    ).to_multiset()
}

proof fn lemma_same_hash_key(a: Hash256, b: Hash256)
    requires
        hash_key(a) == hash_key(b),
    ensures
        a == b,
{
    assert forall|i: int| 0 <= i < 32 implies a.0@[i] == b.0@[i] by {
        assert(hash_key(a)[i] == a@[i] as int);
        assert(hash_key(b)[i] == b@[i] as int);
    }
    assert(a.0 =~= b.0);
}

proof fn lemma_same_events(a: BlockInfo, b: BlockInfo, n: SidechainNumber)
    requires
        same_info(a, b),
    ensures
        forall|outpoint: OutPoint| #[trigger]
            deposit_event(a.events@, n, outpoint) == deposit_event(b.events@, n, outpoint),
        forall|m6id: M6id| #[trigger]
            success_event(a.events@, n, m6id) == success_event(b.events@, n, m6id),
{
    assert forall|outpoint: OutPoint| #[trigger]
        deposit_event(a.events@, n, outpoint) == deposit_event(b.events@, n, outpoint) by {
        let f = deposit_in(n, outpoint);
        assert forall|i: int|
            #![trigger a.events@[i]]
            #![trigger b.events@[i]]
            0 <= i < a.events@.len() implies f(a.events@[i]) == f(b.events@[i]) by {
            match (a.events@[i], b.events@[i]) {
                (BlockEvent::Deposits(x), BlockEvent::Deposits(y)) => {
                    lookup_ignores_order(x@, y@, n);
                },
                _ => {},
            }
        }
        find_map_agrees(a.events@, b.events@, f, f);
    }
    assert forall|m6id: M6id| #[trigger]
        success_event(a.events@, n, m6id) == success_event(b.events@, n, m6id) by {
        let f = success_in(n, m6id);
        assert forall|i: int|
            #![trigger a.events@[i]]
            #![trigger b.events@[i]]
            0 <= i < a.events@.len() implies f(a.events@[i]) == f(b.events@[i]) by {
            assert(same_event(a.events@[i], b.events@[i]));
        }
        find_map_agrees(a.events@, b.events@, f, f);
    }
}

proof fn lemma_same_ctips(a: Seq<(SidechainNumber, Ctip)>, b: Seq<(SidechainNumber, Ctip)>)
    requires
        same_map(a, b),
    ensures
        ctips_in_order(a) == ctips_in_order(b),
{
    let key = by_key::<(SidechainNumber, Ctip)>();
    assert forall|i: int, j: int|
        #![trigger a[i], a[j]]
        0 <= i < a.len() && 0 <= j < a.len() && i != j implies key(a[i]) != key(a[j]) by {
        assert(key(a[i])[0] == a[i].0.0 as int);
        assert(key(a[j])[0] == a[j].0.0 as int);
        assert(a[i].0 != a[j].0);
    }
    stable_sort_ignores_order(a, b, key);
}

/// The transitions of a block do not depend on the order in which the validator's
/// maps were walked.
pub proof fn transitions_ignore_walk(
    server: Server,
    height: u32,
    block: Block,
    info_a: BlockInfo,
    info_b: BlockInfo,
    diff_a: BlockDiff,
    diff_b: BlockDiff,
)
    requires
        same_info(info_a, info_b),
        same_diff(diff_a, diff_b),
    ensures
        server.transitions(height, block, info_a, diff_a) == server.transitions(
            height,
            block,
            info_b,
            diff_b,
        ),
{
    let a = diff_a.txs@;
    let b = diff_b.txs@;
    let f = server.tx_step(height, block, info_a);
    let g = server.tx_step(height, block, info_b);
    assert forall|i: int|
        #![trigger a[i]]
        #![trigger b[i]]
        0 <= i < a.len() implies f(a[i]) == g(b[i]) by {
        assert(same_tx(a[i], b[i]));
        match (a[i], b[i]) {
            (BlockTx::M5 { new_ctips: x }, BlockTx::M5 { new_ctips: y }) => {
                lemma_same_ctips(x@, y@);
                let ctips = ctips_in_order(x@);
                let p = server.deposit_step(height, block, info_a);
                let q = server.deposit_step(height, block, info_b);
                assert forall|j: int| #![trigger ctips[j]] 0 <= j < ctips.len() implies p(ctips[j])
                    == q(ctips[j]) by {
                    lemma_same_events(info_a, info_b, ctips[j].0);
                }
                try_flat_map_agrees(ctips, ctips, p, q);
            },
            (BlockTx::M6 { sidechain_number, .. }, _) => {
                lemma_same_events(info_a, info_b, sidechain_number);
            },
            _ => {},
        }
    }
    try_flat_map_agrees(a, b, f, g);
    let p = failed_entries(diff_a.coinbase.failed_m6ids@);
    let q = failed_entries(diff_b.coinbase.failed_m6ids@);
    let key = by_key::<(SidechainNumber, M6id, PendingM6idInfo)>();
    assert forall|i: int, j: int|
        #![trigger p[i], p[j]]
        0 <= i < p.len() && 0 <= j < p.len() && i != j implies key(p[i]) != key(p[j]) by {
        if key(p[i]) == key(p[j]) {
            assert(key(p[i])[0] == p[i].0.0 as int);
            assert(key(p[j])[0] == p[j].0.0 as int);
            assert(key(p[i]).drop_first() =~= hash_key(p[i].1));
            assert(key(p[j]).drop_first() =~= hash_key(p[j].1));
            lemma_same_hash_key(p[i].1, p[j].1);
        }
    }
    stable_sort_ignores_order(p, q, key);
}

proof fn lemma_same_effect(
    n: SidechainNumber,
    a: BlockAckBundleAction,
    b: BlockAckBundleAction,
)
    requires
        same_action(a, b),
    ensures
        effect_view((n, a)) == effect_view((n, b)),
{
    match (a, b) {
        (
            BlockAckBundleAction::Alarm { positive_votes_proposals: x },
            BlockAckBundleAction::Alarm { positive_votes_proposals: y },
        ) => {
            let key = by_key::<Hash256>();
            assert forall|i: int, j: int|
                #![trigger x@[i], x@[j]]
                0 <= i < x@.len() && 0 <= j < x@.len() && i != j implies key(x@[i])
                != key(x@[j]) by {
                if key(x@[i]) == key(x@[j]) {
                    lemma_same_hash_key(x@[i], x@[j]);
                }
            }
            stable_sort_ignores_order(x@, y@, key);
        },
        _ => {},
    }
}

proof fn lemma_effect_in_both(
    a: Seq<(SidechainNumber, BlockAckBundleAction)>,
    b: Seq<(SidechainNumber, BlockAckBundleAction)>,
    f: spec_fn((SidechainNumber, BlockAckBundleAction)) -> M4EffectView,
    i: int,
)
    requires
        f == (|ack: (SidechainNumber, BlockAckBundleAction)| effect_view(ack)),
        same_votes(a, b),
        0 <= i < a.len(),
    ensures
        b.map_values(f).contains(effect_view(a[i])),
{
    let n = a[i].0;
    lookup_is_an_entry(a, n);
    lookup_is_an_entry(b, n);
    let x = lookup(a, n)->0;
    let k = choose|k: int| 0 <= k < a.len() && a[k] == (n, x);
    assert(a[i].0 == a[k].0);
    assert(a[i] == (n, x));
    let y = lookup(b, n)->0;
    lemma_same_effect(n, x, y);
    let j = choose|j: int| 0 <= j < b.len() && b[j] == (n, y);
    assert(b.map_values(f)[j] == effect_view(a[i]));
}

proof fn lemma_same_votes(
    a: Seq<(SidechainNumber, BlockAckBundleAction)>,
    b: Seq<(SidechainNumber, BlockAckBundleAction)>,
)
    requires
        same_votes(a, b),
    ensures
        ({
            let f = |ack: (SidechainNumber, BlockAckBundleAction)| effect_view(ack);
            stable_sort(a.map_values(f), by_key::<M4Effect>()) == stable_sort(
                b.map_values(f),
                by_key::<M4Effect>(),
            )
        }),
{
    let f = |ack: (SidechainNumber, BlockAckBundleAction)| effect_view(ack);
    let key = by_key::<M4Effect>();
    let p = a.map_values(f);
    let q = b.map_values(f);
    assert forall|i: int, j: int|
        #![trigger p[i], p[j]]
        0 <= i < p.len() && 0 <= j < p.len() && i != j implies key(p[i]) != key(p[j]) by {
        assert(key(p[i])[0] == a[i].0.0 as int);
        assert(key(p[j])[0] == a[j].0.0 as int);
        assert(a[i].0 != a[j].0);
    }
    assert forall|i: int, j: int|
        0 <= i < q.len() && 0 <= j < q.len() && i != j implies q[i] != q[j] by {
        assert(q[i].sidechain_number == b[i].0.0);
        assert(q[j].sidechain_number == b[j].0.0);
        assert(b[i].0 != b[j].0);
    }
    assert(p.no_duplicates());
    assert(q.no_duplicates());
    p.to_multiset_ensures();
    q.to_multiset_ensures();
    p.lemma_multiset_has_no_duplicates();
    q.lemma_multiset_has_no_duplicates();
    assert forall|e: M4EffectView| p.to_multiset().count(e) == #[trigger] q.to_multiset().count(
        e,
    ) by {
        if p.contains(e) {
            let i = choose|i: int| 0 <= i < p.len() && p[i] == e;
            lemma_effect_in_both(a, b, f, i);
            assert(p.to_multiset().count(e) > 0);
            assert(q.to_multiset().count(e) > 0);
        } else if q.contains(e) {
            let i = choose|i: int| 0 <= i < q.len() && q[i] == e;
            assert(same_votes(b, a)) by {
                lemma_same_votes_back(a, b);
            }
            lemma_effect_in_both(b, a, f, i);
        } else {
            assert(p.to_multiset().count(e) == 0);
            assert(q.to_multiset().count(e) == 0);
        }
    }
    assert(p.to_multiset() =~= q.to_multiset());
    stable_sort_ignores_order(p, q, key);
}

proof fn lemma_same_votes_back(
    a: Seq<(SidechainNumber, BlockAckBundleAction)>,
    b: Seq<(SidechainNumber, BlockAckBundleAction)>,
)
    requires
        same_votes(a, b),
    ensures
        same_votes(b, a),
{
    assert forall|n: SidechainNumber|
        #![trigger lookup(a, n)]
        #![trigger lookup(b, n)]
        match (lookup(b, n), lookup(a, n)) {
            (Some(x), Some(y)) => same_action(x, y),
            (None, None) => true,
            _ => false,
        } by {
        match (lookup(a, n), lookup(b, n)) {
            (Some(x), Some(y)) => {
                lemma_same_action_back(x, y);
            },
            _ => {},
        }
    }
}

proof fn lemma_same_action_back(a: BlockAckBundleAction, b: BlockAckBundleAction)
    requires
        same_action(a, b),
    ensures
        same_action(b, a),
{
    match (a, b) {
        (
            BlockAckBundleAction::Alarm { positive_votes_proposals: x },
            BlockAckBundleAction::Alarm { positive_votes_proposals: y },
        ) => {
            x@.lemma_multiset_has_no_duplicates();
            y@.lemma_multiset_has_no_duplicates_conv();
        },
        _ => {},
    }
}

proof fn lemma_same_first_votes(a: Seq<BlockCoinbaseMsg>, b: Seq<BlockCoinbaseMsg>)
    requires
        a.len() == b.len(),
        forall|i: int|
            #![trigger a[i]]
            #![trigger b[i]]
            0 <= i < a.len() ==> same_msg(a[i], b[i]),
    ensures
        match (find_map(a, acks_in()), find_map(b, acks_in())) {
            (Some(x), Some(y)) => same_votes(x, y),
            (None, None) => true,
            _ => false,
        },
    decreases a.len(),
{
    if a.len() > 0 {
        let p = a.drop_first();
        let q = b.drop_first();
        assert(same_msg(a[0], b[0]));
        assert forall|i: int|
            #![trigger p[i]]
            #![trigger q[i]]
            0 <= i < p.len() implies same_msg(p[i], q[i]) by {
            assert(p[i] == a[i + 1] && q[i] == b[i + 1]);
        }
        lemma_same_first_votes(p, q);
    }
}

proof fn lemma_same_message(
    message: CoinbaseMessage,
    vout: u32,
    info_a: BlockInfo,
    info_b: BlockInfo,
    diff_a: BlockDiff,
    diff_b: BlockDiff,
)
    requires
        same_info(info_a, info_b),
        same_diff(diff_a, diff_b),
    ensures
        accepted(message, vout, info_a, diff_a) == accepted(message, vout, info_b, diff_b),
        message_view(message, diff_a) == message_view(message, diff_b),
{
    let a = diff_a.coinbase.msgs@;
    let b = diff_b.coinbase.msgs@;
    match message {
        CoinbaseMessage::M1ProposeSidechain(m1) => {
            let hash = sha256d_of(m1.description@);
            let n = m1.sidechain_number;
            assert forall|i: int|
                #![trigger info_a.events@[i]]
                #![trigger info_b.events@[i]]
                0 <= i < info_a.events@.len() implies proposes(info_a.events@[i], vout, n, hash)
                == proposes(info_b.events@[i], vout, n, hash) by {
                assert(same_event(info_a.events@[i], info_b.events@[i]));
            }
        },
        CoinbaseMessage::M2AckSidechain(m2) => {
            let f = ack_effect(
                SidechainProposalId {
                    sidechain_number: m2.sidechain_number,
                    description_hash: m2.description_hash,
                },
            );
            assert forall|i: int|
                #![trigger a[i]]
                #![trigger b[i]]
                0 <= i < a.len() implies f(a[i]) == f(b[i]) by {
                assert(same_msg(a[i], b[i]));
            }
            find_map_agrees(a, b, f, f);
        },
        CoinbaseMessage::M3ProposeBundle(m3) => {
            assert forall|i: int|
                #![trigger a[i]]
                #![trigger b[i]]
                0 <= i < a.len() implies proposes_bundle(a[i], m3.sidechain_number, m3.bundle_txid)
                == proposes_bundle(b[i], m3.sidechain_number, m3.bundle_txid) by {
                assert(same_msg(a[i], b[i]));
            }
        },
        CoinbaseMessage::M4AckBundles(_) => {
            lemma_same_first_votes(a, b);
            match (find_map(a, acks_in()), find_map(b, acks_in())) {
                (Some(x), Some(y)) => {
                    lemma_same_votes(x, y);
                },
                _ => {},
            }
        },
        CoinbaseMessage::M7BmmAccept(m7) => {
            lookup_ignores_order(
                info_a.bmm_commitments@,
                info_b.bmm_commitments@,
                m7.sidechain_number,
            );
        },
    }
}

/// Everything that is said of a block does not depend on the order in which the
/// validator's maps were walked.
pub proof fn block_delta_ignores_walk<H>(
    server: Server,
    header_info: HeaderInfo<H>,
    block: Block,
    readings: MessageReadings,
    info_a: BlockInfo,
    info_b: BlockInfo,
    diff_a: BlockDiff,
    diff_b: BlockDiff,
)
    requires
        same_info(info_a, info_b),
        same_diff(diff_a, diff_b),
    ensures
        block_delta(server, header_info, block, readings, info_a, diff_a) == block_delta(
            server,
            header_info,
            block,
            readings,
            info_b,
            diff_b,
        ),
{
    transitions_ignore_walk(server, header_info.height, block, info_a, info_b, diff_a, diff_b);
    if block.txdata@.len() > 0 {
        let outputs = block.txdata@[0].output@;
        let f = message_at(outputs, readings, info_a, diff_a);
        let g = message_at(outputs, readings, info_b, diff_b);
        assert forall|i: int|
            #![trigger f(i)]
            #![trigger g(i)]
            0 <= i < outputs.len() implies f(i) == g(i) by {
            if let Some(script) = readings.output(i) {
                lemma_same_message(script.message, i as u32, info_a, info_b, diff_a, diff_b);
            }
        }
        filter_map_agrees(outputs.len(), f, g);
    }
    let f = confirmed_at(block, readings, info_a);
    let g = confirmed_at(block, readings, info_b);
    assert forall|i: int|
        #![trigger f(i)]
        #![trigger g(i)]
        0 <= i < block.txdata@.len() implies f(i) == g(i) by {
        if let Some(request) = readings.request(i) {
            lookup_ignores_order(
                info_a.bmm_commitments@,
                info_b.bmm_commitments@,
                request.sidechain_number,
            );
        }
    }
    filter_map_agrees(block.txdata@.len(), f, g);
}

} // verus!
