//! What requests ask for and what replies hold, in terms of what came in.
use vstd::prelude::*;

use crate::block_laws::{commits_to, lookups_find_commitments};
use crate::chain::{compact_size, transaction_bytes};
use crate::error::{
    display_hash, field_name, request_name, Field, ReadError, RequestKind, RpcError,
    MAX_BIP300_BLOCK_DELTA_ANCESTORS,
};
use crate::messages::{CoinbaseMessage, M1ProposeSidechain, M2AckSidechain, M3ProposeBundle};
use crate::request::{
    ancestors, decoded, m4_message, one_message, psbt_messages, required_hash, sidechain_field,
    start_hash, GetCoinbasePsbtRequest,
};
use crate::response::{
    block_info_item, bundle_item, commitment_of, first_failure, found, h_star_view,
    proposal_item, psbt_transaction, BlockInfoItem, BmmHStarCommitment, BmmHStarCommitmentView,
    BundleItem, SidechainProposalItem,
};
use crate::search::try_flat_map_first_failure;
use crate::spelling::{
    consensus_bytes_spell, consensus_hash_spells, displayed_hash_spells, spelling_is_unique, spells,
    transaction_spells,
};
use crate::text::decimal;
use crate::types::{
    distinct_sidechains, lookup, lookup_ignores_order, lookup_is_an_entry, Hash256, M6id,
    PendingM6idInfo, Sidechain, SidechainNumber, SidechainProposalId, Transaction, TxIn, TxOut,
};
use crate::wire::{
    opt_view, outcome, transaction_hex, undisplay_hash, views, Bip300BlockDelta,
    Bip300CoinbaseMessage, ConfirmedBmmRequest, ConsensusHex, Hex, M4Effect, Message, MessageView,
    ReverseHex, TreasuryCtip, TreasuryTransition,
};

verus! {

/// A field with a hash that must be there gives the hash that its text stands for. It is
/// refused, under the names of the request and the field, where it is missing and where
/// its text stands for none.
pub proof fn hash_fields_are_read(request: RequestKind, field: Field, value: Option<ReverseHex>)
    ensures
        match value {
            None => required_hash(request, field, value) == Err::<Seq<u8>, _>(
                RpcError::MissingField { request, field },
            ),
            Some(text) => match undisplay_hash(text.hex@) {
                Some(h) => required_hash(request, field, value) == Ok::<_, RpcError>(h) && decoded(
                    request,
                    field,
                    text.hex@,
                ) == Ok::<_, RpcError>(h),
                None => required_hash(request, field, value) == Err::<Seq<u8>, _>(
                    RpcError::InvalidField { request, field },
                ) && decoded(request, field, text.hex@) == Err::<Seq<u8>, _>(
                    RpcError::InvalidField { request, field },
                ),
            },
        },
{
}

/// A range may go without a start. A start that is there gives the hash that its text
/// stands for, and is refused where it stands for none.
pub proof fn range_starts_are_read(value: Option<ReverseHex>)
    ensures
        match value {
            None => start_hash(value) == Ok::<Option<Seq<u8>>, RpcError>(None),
            Some(text) => match undisplay_hash(text.hex@) {
                Some(h) => start_hash(value) == Ok::<_, RpcError>(Some(h)),
                None => start_hash(value) == Err::<Option<Seq<u8>>, _>(
                    RpcError::InvalidField {
                        request: RequestKind::GetTwoWayPegData,
                        field: Field::StartBlockHash,
                    },
                ),
            },
        },
{
}

/// A field with a sidechain that must be there gives the number in it, which is at most
/// 255. A number of ancestors that is there is taken as it is, and is zero otherwise.
pub proof fn number_fields_are_read(request: RequestKind, field: Field, value: Option<u32>)
    ensures
        match value {
            None => sidechain_field(request, field, value) == Err::<SidechainNumber, _>(
                RpcError::MissingField { request, field },
            ) && ancestors(value) == 0,
            Some(n) => ancestors(value) == n && (if n <= 255 {
                sidechain_field(request, field, value) matches Ok(s) && s.0 == n
            } else {
                sidechain_field(request, field, value) == Err::<SidechainNumber, _>(
                    RpcError::InvalidField { request, field },
                )
            }),
        },
        MAX_BIP300_BLOCK_DELTA_ANCESTORS == 4095,
{
}

/// Every message of a list was read.
pub open spec fn all_read<T>(list: Seq<Result<T, RpcError>>) -> bool {
    forall|i: int| #![trigger list[i]] 0 <= i < list.len() ==> list[i] is Ok
}

/// The first message of a list that was not read failed with `e`.
pub open spec fn first_unread<T>(list: Seq<Result<T, RpcError>>, e: RpcError) -> bool {
    exists|i: int|
        #![trigger list[i]]
        0 <= i < list.len() && list[i] == Err::<T, _>(e) && (forall|j: int|
            #![trigger list[j]]
            0 <= j < i ==> list[j] is Ok)
}

/// A coinbase is made where every message was read and the votes on bundles are there.
/// It is refused for the first message that was not read, and only then for votes that
/// are missing.
pub proof fn psbt_is_refused_for_the_first(request: GetCoinbasePsbtRequest)
    ensures
        ({
            let m1 = request.propose_sidechains@;
            let m2 = request.ack_sidechains@;
            let m3 = request.propose_bundles@;
            match psbt_messages(request) {
                Ok(_) => all_read(m1) && all_read(m2) && all_read(m3) && (
                request.ack_bundles matches Some(Ok(_))),
                Err(e) => {
                    ||| first_unread(m1, e)
                    ||| all_read(m1) && first_unread(m2, e)
                    ||| all_read(m1) && all_read(m2) && first_unread(m3, e)
                    ||| all_read(m1) && all_read(m2) && all_read(m3) && (match request.ack_bundles {
                        Some(read) => read == Err::<CoinbaseMessage, _>(e),
                        None => e == (RpcError::MissingField {
                            request: RequestKind::GetCoinbasePsbt,
                            field: Field::AckBundles,
                        }),
                    })
                },
            }
        }),
{
    let m1 = request.propose_sidechains@;
    let m2 = request.ack_sidechains@;
    let m3 = request.propose_bundles@;
    try_flat_map_first_failure(m1, one_message::<M1ProposeSidechain>());
    try_flat_map_first_failure(m2, one_message::<M2AckSidechain>());
    try_flat_map_first_failure(m3, one_message::<M3ProposeBundle>());
    let f = one_message::<M1ProposeSidechain>();
    let g = one_message::<M2AckSidechain>();
    let h = one_message::<M3ProposeBundle>();
    assert forall|i: int| #![trigger m1[i]] 0 <= i < m1.len() implies (f(m1[i]) is Ok <==> m1[i] is
        Ok) by {
    }
    assert forall|i: int| #![trigger m2[i]] 0 <= i < m2.len() implies (g(m2[i]) is Ok <==> m2[i] is
        Ok) by {
    }
    assert forall|i: int| #![trigger m3[i]] 0 <= i < m3.len() implies (h(m3[i]) is Ok <==> m3[i] is
        Ok) by {
    }
    assert(m4_message(request.ack_bundles) is Ok <==> request.ack_bundles matches Some(Ok(_)));
}

/// A reply of headers or records holds what the validator found, and nothing where it
/// knows nothing. Each record stands with its own header.
pub proof fn found_is_what_was_found<H, B>(known: Option<Vec<(H, B)>>, entry: (H, B))
    ensures
        known is None ==> found(known).len() == 0,
        known matches Some(all) ==> found(known) == all@,
        (block_info_item::<H, B>())(entry) == (BlockInfoItem {
            header_info: entry.0,
            block_info: entry.1,
        }),
{
}

/// `written` tells what `commitments` hold of sidechain `n`: the hash of its first entry,
/// and nothing exactly where it has no entry.
pub open spec fn tells_commitment(
    written: Option<Seq<char>>,
    commitments: Seq<(SidechainNumber, Hash256)>,
    n: SidechainNumber,
) -> bool {
    match written {
        Some(text) => exists|hash: Hash256|
            #![trigger commits_to(commitments, n, hash)]
            commits_to(commitments, n, hash) && spells(text, hash.0@),
        None => forall|i: int|
            #![trigger commitments[i]]
            0 <= i < commitments.len() ==> commitments[i].0 != n,
    }
}

/// The commitment of a block goes out wherever its entry stands among those of other
/// sidechains, and is missing only where the sidechain has none.
pub proof fn commitments_are_told(
    n: SidechainNumber,
    commitments: Vec<(SidechainNumber, Hash256)>,
)
    ensures
        tells_commitment((commitment_of(n))(commitments), commitments@, n),
{
    lookup_is_an_entry(commitments@, n);
    if let Some(hash) = lookup(commitments@, n) {
        lookups_find_commitments(commitments@, n, hash);
        consensus_hash_spells(hash);
    }
}

/// The commitment that goes out does not depend on the order in which the commitments
/// were walked.
pub proof fn commitments_ignore_walk(
    n: SidechainNumber,
    a: Vec<(SidechainNumber, Hash256)>,
    b: Vec<(SidechainNumber, Hash256)>,
)
    requires
        distinct_sidechains(a@),
        a@.to_multiset() == b@.to_multiset(),
    ensures
        (commitment_of(n))(a) == (commitment_of(n))(b),
{
    lookup_ignores_order(a@, b@, n);
}

/// A block that is not known goes out as not found, under the hash that was asked for.
/// One that is known goes out with what it commits to and, in their order, what each of
/// its ancestors commits to.
pub proof fn commitments_are_told_of_every_block(
    block_hash: Hash256,
    n: SidechainNumber,
    blocks: Seq<Vec<(SidechainNumber, Hash256)>>,
)
    ensures
        match h_star_view(block_hash, n, blocks) {
            BmmHStarCommitmentView::BlockNotFound { block_hash: text } => blocks.len() == 0
                && spells(text, block_hash.0@.reverse()),
            BmmHStarCommitmentView::Commitment { commitment, ancestor_commitments } => {
                &&& blocks.len() == ancestor_commitments.len() + 1
                &&& tells_commitment(commitment, blocks[0]@, n)
                &&& forall|i: int|
                    #![trigger ancestor_commitments[i]]
                    0 <= i < ancestor_commitments.len() ==> tells_commitment(
                        ancestor_commitments[i],
                        blocks[i + 1]@,
                        n,
                    )
            },
        },
{
    displayed_hash_spells(block_hash);
    if blocks.len() > 0 {
        commitments_are_told(n, blocks[0]);
        let told = h_star_view(block_hash, n, blocks)->ancestor_commitments;
        assert forall|i: int| #![trigger told[i]] 0 <= i < told.len() implies tells_commitment(
            told[i],
            blocks[i + 1]@,
            n,
        ) by {
            commitments_are_told(n, blocks[i + 1]);
        }
    }
}

/// A coinbase template is a transaction of version 2 without lock time or inputs. It
/// holds one output without value for each script, and goes out as its serialisation.
pub proof fn psbt_holds_its_scripts(scripts: Seq<Seq<u8>>)
    ensures
        psbt_transaction(scripts).version == 2,
        psbt_transaction(scripts).lock_time == 0,
        psbt_transaction(scripts).input.len() == 0,
        psbt_transaction(scripts).output.len() == scripts.len(),
        forall|i: int|
            #![trigger scripts[i]]
            0 <= i < scripts.len() ==> psbt_transaction(scripts).output[i].value == 0
                && psbt_transaction(scripts).output[i].script_pubkey == scripts[i],
        spells(
            transaction_hex(psbt_transaction(scripts)),
            transaction_bytes(psbt_transaction(scripts)),
        ),
{
    transaction_spells(psbt_transaction(scripts));
}

/// The first failure is a failure with only successes before it.
pub proof fn first_failures_are_first(
    scripts: Seq<Result<Vec<u8>, ReadError>>,
    i: int,
)
    ensures
        first_failure(scripts, i) <==> 0 <= i < scripts.len() && scripts[i] is Err && (forall|
            j: int,
        |
            #![trigger scripts[j]]
            0 <= j < i ==> scripts[j] is Ok),
{
}

/// Every proposed sidechain goes out, at its place, with its own number, description,
/// declaration, description hash, votes and height, and its age at the tip.
pub proof fn proposals_are_told<D>(
    tip: u32,
    proposals: Seq<(SidechainProposalId, Sidechain<D>)>,
    i: int,
)
    requires
        0 <= i < proposals.len(),
    ensures
        proposals.map_values(proposal_item::<D>(tip)).len() == proposals.len(),
        ({
            let (id, sidechain) = proposals[i];
            let description = sidechain.proposal.description@;
            let written = proposals.map_values(proposal_item::<D>(tip))[i];
            &&& written.sidechain_number == sidechain.proposal.sidechain_number.0
            &&& spells(written.description, compact_size(description.len()) + description)
            &&& written.declaration == sidechain.declaration
            &&& spells(written.description_sha256d_hash, id.description_hash.0@.reverse())
            &&& written.vote_count == sidechain.status.vote_count
            &&& written.proposal_height == sidechain.status.proposal_height
            &&& written.proposal_age == (if sidechain.status.proposal_height <= tip {
                tip - sidechain.status.proposal_height
            } else {
                0
            })
        }),
{
    let (id, sidechain) = proposals[i];
    consensus_bytes_spell(sidechain.proposal.description@);
    displayed_hash_spells(id.description_hash);
}

/// Every pending bundle goes out, at its place, with its own identifier, votes and
/// height.
pub proof fn bundles_are_told(bundles: Seq<(M6id, PendingM6idInfo)>, i: int)
    requires
        0 <= i < bundles.len(),
    ensures
        bundles.map_values(bundle_item()).len() == bundles.len(),
        ({
            let (m6id, pending) = bundles[i];
            let written = bundles.map_values(bundle_item())[i];
            &&& spells(written.m6id, m6id.0@)
            &&& written.vote_count == pending.vote_count
            &&& written.proposal_height == pending.proposal_height
        }),
{
    consensus_hash_spells(bundles[i].0);
}

/// Bundles with different votes, heights or identifiers go out differently.
pub proof fn bundles_are_told_apart(a: (M6id, PendingM6idInfo), b: (M6id, PendingM6idInfo))
    requires
        (bundle_item())(a) == (bundle_item())(b),
    ensures
        a == b,
{
    consensus_hash_spells(a.0);
    consensus_hash_spells(b.0);
    let text = (bundle_item())(a).m6id;
    spelling_is_unique(text, text, a.0.0@, b.0.0@);
    assert(a.0.0 =~= b.0.0);
}

/// The status code of a refusal: a request that does not hold what it should is an
/// invalid argument, a service that is not ready is unavailable, a failure that carries
/// its status keeps it, and everything else is internal.
pub proof fn refusals_have_their_codes(refusal: RpcError)
    ensures
        refusal is MissingField || refusal is InvalidField || refusal is TooManyAncestors
            ==> refusal.spec_code() is InvalidArgument,
        refusal is NotSynced || refusal is NoHeaderSync || refusal is AlreadyShuttingDown
            ==> refusal.spec_code() is Unavailable,
        refusal matches RpcError::Status { code, message } ==> refusal.spec_code() == code,
        refusal is DepositWithoutEvent || refusal is DepositOutsideBlock || refusal is
            WithdrawalWithoutEvent || refusal is WithdrawalAtSequenceZero || refusal is
            PayoutOverflow || refusal is OutputOverflow || refusal is OutputExceedsTreasury
            || refusal is TreasuryNotRead || refusal is WrongBlock || refusal is Internal
            ==> refusal.spec_code() is Internal,
{
}

/// The text of a refusal names what it is about: the sidechain, the transaction, the
/// blocks, the field and the request. A failure of the validator keeps its own text.
pub proof fn refusals_have_their_texts(refusal: RpcError)
    ensures
        match refusal {
            RpcError::MissingField { request, field } => refusal.spec_message()
                == "missing field `"@ + field_name(field) + "` in `"@ + request_name(request)
                + "`"@,
            RpcError::InvalidField { request, field } => refusal.spec_message()
                == "invalid field `"@ + field_name(field) + "` in `"@ + request_name(request)
                + "`"@,
            RpcError::TooManyAncestors => refusal.spec_message()
                == "max_ancestors exceeds the observer RPC limit of "@ + decimal(4095),
            RpcError::NotSynced => refusal.spec_message() == "Validator is not synced"@,
            RpcError::NoHeaderSync => refusal.spec_message() == "No header sync in progress"@,
            RpcError::AlreadyShuttingDown => refusal.spec_message()
                == "Validator is already shutting down"@,
            RpcError::DepositWithoutEvent { sidechain_number } => refusal.spec_message()
                == "M5 diff for sidechain "@ + decimal(sidechain_number.0 as nat)
                + " has no matching block event"@,
            RpcError::DepositOutsideBlock { txid } => refusal.spec_message()
                == "M5 diff references transaction "@ + display_hash(txid)
                + " outside its block"@,
            RpcError::WithdrawalWithoutEvent { sidechain_number } => refusal.spec_message()
                == "M6 diff for sidechain "@ + decimal(sidechain_number.0 as nat)
                + " has no matching success event"@,
            RpcError::WithdrawalAtSequenceZero => refusal.spec_message()
                == "a successful M6 cannot be treasury sequence zero"@,
            RpcError::PayoutOverflow => refusal.spec_message() == "M6 payout amount overflow"@,
            RpcError::OutputOverflow => refusal.spec_message() == "M6 output amount overflow"@,
            RpcError::OutputExceedsTreasury => refusal.spec_message()
                == "M6 output amount exceeds previous treasury value"@,
            RpcError::TreasuryNotRead { sidechain_number, sequence_number } =>
                refusal.spec_message() == "no treasury UTXO of sidechain "@ + decimal(
                    sidechain_number.0 as nat,
                ) + " at sequence "@ + decimal(sequence_number as nat),
            RpcError::WrongBlock { returned, requested } => refusal.spec_message()
                == "Core returned block "@ + display_hash(returned) + " for requested block "@
                + display_hash(requested),
            RpcError::Internal { message } => refusal.spec_message() == message@,
            RpcError::Status { message, .. } => refusal.spec_message() == message@,
        },
{
}

/// The names of requests and fields in refusals.
pub proof fn refusals_name_requests_and_fields()
    ensures
        request_name(RequestKind::GetBlockHeaderInfo) == "GetBlockHeaderInfoRequest"@,
        request_name(RequestKind::GetBlockInfo) == "GetBlockInfoRequest"@,
        request_name(RequestKind::GetBip300BlockDelta) == "GetBip300BlockDeltaRequest"@,
        request_name(RequestKind::GetBmmHStarCommitment) == "GetBmmHStarCommitmentRequest"@,
        request_name(RequestKind::GetCoinbasePsbt) == "GetCoinbasePSBTRequest"@,
        request_name(RequestKind::GetCtip) == "GetCtipRequest"@,
        request_name(RequestKind::GetTwoWayPegData) == "GetTwoWayPegDataRequest"@,
        request_name(RequestKind::SubscribeEvents) == "SubscribeEventsRequest"@,
        field_name(Field::BlockHash) == "block_hash"@,
        field_name(Field::SidechainId) == "sidechain_id"@,
        field_name(Field::SidechainNumber) == "sidechain_number"@,
        field_name(Field::StartBlockHash) == "start_block_hash"@,
        field_name(Field::EndBlockHash) == "end_block_hash"@,
        field_name(Field::AckBundles) == "ack_bundles"@,
{
}

/// Lists and optional values are viewed one by one.
pub proof fn lists_are_viewed_one_by_one<T: View, E>(
    s: Seq<T>,
    x: Option<T>,
    r: Result<Vec<T>, E>,
)
    ensures
        views(s).len() == s.len(),
        forall|i: int| #![trigger s[i]] 0 <= i < s.len() ==> views(s)[i] == s[i]@,
        x is None ==> opt_view(x) is None,
        x matches Some(v) ==> opt_view(x) == Some(v@),
        r matches Ok(v) ==> outcome(r) == Ok::<_, E>(views(v@)),
        r matches Err(e) ==> outcome(r) == Err::<Seq<T::V>, _>(e),
{
}

/// Text is viewed as its characters, and a hash as its bytes.
pub proof fn text_is_viewed_as_it_is(a: ReverseHex, b: ConsensusHex, c: Hex, h: Hash256)
    ensures
        a@ == a.hex@,
        b@ == b.hex@,
        c@ == c.hex@,
        h@ == h.0@,
{
}

/// A transaction is viewed with every field of every input and output.
pub proof fn transactions_are_viewed_whole(tx: Transaction, i: TxIn, o: TxOut)
    ensures
        tx@.version == tx.version,
        tx@.lock_time == tx.lock_time,
        tx@.input.len() == tx.input@.len(),
        forall|k: int|
            #![trigger tx.input@[k]]
            0 <= k < tx.input@.len() ==> tx@.input[k] == tx.input@[k]@,
        tx@.output.len() == tx.output@.len(),
        forall|k: int|
            #![trigger tx.output@[k]]
            0 <= k < tx.output@.len() ==> tx@.output[k] == tx.output@[k]@,
        i@.previous_output == i.previous_output,
        i@.script_sig == i.script_sig@,
        i@.sequence == i.sequence,
        i@.witness.len() == i.witness@.len(),
        forall|k: int|
            #![trigger i.witness@[k]]
            0 <= k < i.witness@.len() ==> i@.witness[k] == i.witness@[k]@,
        o@.value == o.value,
        o@.script_pubkey == o.script_pubkey@,
{
}

/// Treasury outputs and transitions are viewed with every field.
pub proof fn transitions_are_viewed_whole(c: TreasuryCtip, t: TreasuryTransition)
    ensures
        c@.txid == c.txid.hex@,
        c@.vout == c.vout,
        c@.value_sats == c.value_sats,
        t@.kind == t.kind,
        t@.sidechain_number == t.sidechain_number,
        t@.previous_ctip == opt_view(t.previous_ctip),
        t@.new_ctip == opt_view(t.new_ctip),
        t@.sequence_number == t.sequence_number,
        t@.delta_sats == t.delta_sats,
        t@.payout_sats == t.payout_sats,
        t@.fee_sats == t.fee_sats,
        t@.m6id == opt_view(t.m6id),
        t@.sidechain_address == opt_view(t.sidechain_address),
        t@.transaction == opt_view(t.transaction),
        t@.proposal_height == t.proposal_height,
        t@.terminal_height == t.terminal_height,
{
}

/// Messages of a coinbase and what votes did are viewed with every field.
pub proof fn messages_are_viewed_whole(e: M4Effect, m: Message, b: Bip300CoinbaseMessage)
    ensures
        e@.sidechain_number == e.sidechain_number,
        e@.action == e.action,
        e@.upvoted_m6id == opt_view(e.upvoted_m6id),
        e@.downvoted_m6ids == views(e.downvoted_m6ids@),
        match m {
            Message::M1(d) => m@ == (MessageView::M1 {
                sidechain_number: d.sidechain_number,
                description: d.description.hex@,
                description_sha256d_hash: d.description_sha256d_hash.hex@,
            }),
            Message::M2(d) => m@ == (MessageView::M2 {
                sidechain_number: d.sidechain_number,
                description_sha256d_hash: d.description_sha256d_hash.hex@,
                effect: d.effect,
            }),
            Message::M3(d) => m@ == (MessageView::M3 {
                sidechain_number: d.sidechain_number,
                m6id: d.m6id.hex@,
            }),
            Message::M4(d) => m@ == (MessageView::M4 {
                mode: d.mode,
                raw_votes: d.raw_votes@,
                effects: views(d.effects@),
            }),
            Message::M7(d) => m@ == (MessageView::M7 {
                sidechain_number: d.sidechain_number,
                hstar: d.hstar.hex@,
            }),
        },
        b@.vout == b.vout,
        b@.raw_script_pubkey == b.raw_script_pubkey.hex@,
        b@.accepted == b.accepted,
        b@.message == b.message@,
{
}

/// Honoured requests and deltas are viewed with every field.
pub proof fn deltas_are_viewed_whole<H>(c: ConfirmedBmmRequest, d: Bip300BlockDelta<H>)
    ensures
        c@.sidechain_number == c.sidechain_number,
        c@.txid == c.txid.hex@,
        c@.transaction == c.transaction.hex@,
        c@.hstar == c.hstar.hex@,
        c@.previous_mainchain_block_hash == c.previous_mainchain_block_hash.hex@,
        c@.fee_sats == c.fee_sats,
        d@.header_info == d.header_info,
        d@.coinbase_txid == d.coinbase_txid.hex@,
        d@.coinbase_messages == views(d.coinbase_messages@),
        d@.treasury_transitions == views(d.treasury_transitions@),
        d@.confirmed_bmm_requests == views(d.confirmed_bmm_requests@),
{
}

/// Commitments, proposals and bundles in replies are viewed with every field.
pub proof fn replies_are_viewed_whole<D>(
    c: BmmHStarCommitment,
    p: SidechainProposalItem<D>,
    b: BundleItem,
)
    ensures
        match c {
            BmmHStarCommitment::BlockNotFound { block_hash } => c@ == (
            BmmHStarCommitmentView::BlockNotFound { block_hash: block_hash.hex@ }),
            BmmHStarCommitment::Commitment { commitment, ancestor_commitments } => {
                &&& c@ is Commitment
                &&& c@->commitment == opt_view(commitment)
                &&& c@->ancestor_commitments.len() == ancestor_commitments@.len()
                &&& forall|i: int|
                    #![trigger ancestor_commitments@[i]]
                    0 <= i < ancestor_commitments@.len() ==> c@->ancestor_commitments[i]
                        == opt_view(ancestor_commitments@[i])
            },
        },
        p@.sidechain_number == p.sidechain_number,
        p@.description == p.description.hex@,
        p@.declaration == p.declaration,
        p@.description_sha256d_hash == p.description_sha256d_hash.hex@,
        p@.vote_count == p.vote_count,
        p@.proposal_height == p.proposal_height,
        p@.proposal_age == p.proposal_age,
        b@.m6id == b.m6id.hex@,
        b@.vote_count == b.vote_count,
        b@.proposal_height == b.proposal_height,
{
}

} // verus!
