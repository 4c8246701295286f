//! What clients get, given what was read from the validator for them.
use vstd::prelude::*;

use crate::chain::split_first;
use crate::error::{display_hash, internal_err, to_connect_error, ReadError, RpcError};
use crate::types::{
    find_entry, lookup, BlockHash, Ctip, Hash256, M6id, PendingM6idInfo, Sidechain,
    SidechainNumber, SidechainProposalId, Transaction, TransactionView, TxInView, TxOut, TxOutView,
};
use crate::wire::{
    bytes_hex, hash_hex, opt_view, transaction_hex, views, views_push, ConsensusHex, ReverseHex,
};

verus! {

/// Headers of blocks.
#[derive(Debug, PartialEq, Eq)]
pub struct GetBlockHeaderInfoResponse<H> {
    pub header_infos: Vec<H>,
}

/// What the validator found, as a reply: nothing where it knows nothing.
pub open spec fn found<T>(infos: Option<Vec<T>>) -> Seq<T> {
    match infos {
        Some(infos) => infos@,
        None => Seq::empty(),
    }
}

/// Answers a request for headers. An unknown block has none.
pub fn get_block_header_info<H>(reply: Result<Option<Vec<H>>, ReadError>) -> (r: Result<
    GetBlockHeaderInfoResponse<H>,
    RpcError,
>)
    ensures
        match reply {
            Err(e) => r == Err::<GetBlockHeaderInfoResponse<H>, _>(
                RpcError::Internal { message: e.message },
            ),
            Ok(infos) => r matches Ok(response) && response.header_infos@ == found(infos),
        },
{
    match reply {
        Err(e) => Err(internal_err(e)),
        Ok(Some(infos)) => Ok(GetBlockHeaderInfoResponse { header_infos: infos }),
        Ok(None) => Ok(GetBlockHeaderInfoResponse { header_infos: Vec::new() }),
    }
}

/// A header and what its block did to a sidechain.
#[derive(Debug, PartialEq, Eq)]
pub struct BlockInfoItem<H, B> {
    pub header_info: H,
    pub block_info: B,
}

/// What blocks did to a sidechain.
#[derive(Debug, PartialEq, Eq)]
pub struct GetBlockInfoResponse<H, B> {
    pub infos: Vec<BlockInfoItem<H, B>>,
}

/// A header and what its block did, as an item of a reply.
pub open spec fn block_info_item<H, B>() -> spec_fn((H, B)) -> BlockInfoItem<H, B> {
    |info: (H, B)| BlockInfoItem { header_info: info.0, block_info: info.1 }
}

/// Answers a request for what blocks did to a sidechain. An unknown block did
/// nothing.
pub fn get_block_info<H, B>(reply: Result<Option<Vec<(H, B)>>, ReadError>) -> (r: Result<
    GetBlockInfoResponse<H, B>,
    RpcError,
>)
    ensures
        match reply {
            Err(e) => r == Err::<GetBlockInfoResponse<H, B>, _>(
                RpcError::Internal { message: e.message },
            ),
            Ok(infos) => r matches Ok(response) && response.infos@ == found(infos).map_values(
                block_info_item(),
            ),
        },
{
    let infos = match reply {
        Err(e) => return Err(internal_err(e)),
        Ok(Some(infos)) => infos,
        Ok(None) => Vec::new(),
    };
    let ghost all = infos@;
    let mut items: Vec<BlockInfoItem<H, B>> = Vec::new();
    for info in it: infos
        invariant
            it.seq() == all,
            items@ == all.take(it.index()).map_values(block_info_item()),
    {
        let ghost i = it.index();
        let (header_info, block_info) = info;
        items.push(BlockInfoItem { header_info, block_info });
        assert(items@ =~= all.take(i + 1).map_values(block_info_item()));
    }
    proof {
        assert(all.take(all.len() as int) =~= all);
        assert(all =~= found(reply->Ok_0));
    }
    Ok(GetBlockInfoResponse { infos: items })
}

/// The sidechain blocks that a block and its ancestors commit to.
#[derive(Debug, PartialEq, Eq)]
pub enum BmmHStarCommitment {
    BlockNotFound { block_hash: ReverseHex },
    Commitment { commitment: Option<ConsensusHex>, ancestor_commitments: Vec<Option<ConsensusHex>> },
}

/// View of [`BmmHStarCommitment`].
pub enum BmmHStarCommitmentView {
    BlockNotFound { block_hash: Seq<char> },
    Commitment { commitment: Option<Seq<char>>, ancestor_commitments: Seq<Option<Seq<char>>> },
}

impl View for BmmHStarCommitment {
    type V = BmmHStarCommitmentView;

    open spec fn view(&self) -> BmmHStarCommitmentView {
        match *self {
            BmmHStarCommitment::BlockNotFound { block_hash } =>
                BmmHStarCommitmentView::BlockNotFound { block_hash: block_hash@ },
            BmmHStarCommitment::Commitment { commitment, ancestor_commitments } =>
                BmmHStarCommitmentView::Commitment {
                commitment: opt_view(commitment),
                ancestor_commitments: ancestor_commitments@.map_values(
                    |c: Option<ConsensusHex>| opt_view(c),
                ),
            },
        }
    }
}

/// The commitment of one block for a sidechain, if it has one.
pub open spec fn commitment_of(sidechain_id: SidechainNumber) -> spec_fn(
    Vec<(SidechainNumber, Hash256)>,
) -> Option<Seq<char>> {
    |commitments: Vec<(SidechainNumber, Hash256)>|
        match lookup(commitments@, sidechain_id) {
            Some(commitment) => Some(hash_hex(commitment)),
            None => None,
        }
}

/// The reply on the commitments of a block, the first, and its ancestors.
pub open spec fn h_star_view(
    block_hash: BlockHash,
    sidechain_id: SidechainNumber,
    commitments: Seq<Vec<(SidechainNumber, Hash256)>>,
) -> BmmHStarCommitmentView {
    if commitments.len() == 0 {
        BmmHStarCommitmentView::BlockNotFound { block_hash: display_hash(block_hash) }
    } else {
        BmmHStarCommitmentView::Commitment {
            commitment: commitment_of(sidechain_id)(commitments[0]),
            ancestor_commitments: commitments.drop_first().map_values(commitment_of(sidechain_id)),
        }
    }
}

/// Writes the commitment of one block for a sidechain.
fn commitment(
    commitments: &Vec<(SidechainNumber, Hash256)>,
    sidechain_id: SidechainNumber,
) -> (r: Option<ConsensusHex>)
    ensures
        opt_view(r) == commitment_of(sidechain_id)(*commitments),
{
    match find_entry(commitments, sidechain_id) {
        Some(commitment) => Some(ConsensusHex::encode_hash(commitment)),
        None => None,
    }
}

/// Answers a request for the sidechain blocks that a block and its ancestors
/// commit to.
pub fn get_bmm_h_star_commitment(
    block_hash: &BlockHash,
    sidechain_id: SidechainNumber,
    reply: Result<Vec<Vec<(SidechainNumber, Hash256)>>, ReadError>,
) -> (r: Result<BmmHStarCommitment, RpcError>)
    ensures
        match reply {
            Err(e) => r == Err::<BmmHStarCommitment, _>(RpcError::Internal { message: e.message }),
            Ok(commitments) => r matches Ok(result) && result@ == h_star_view(
                *block_hash,
                sidechain_id,
                commitments@,
            ),
        },
{
    let commitments = match reply {
        Err(e) => return Err(internal_err(e)),
        Ok(commitments) => commitments,
    };
    match split_first(commitments) {
        None => Ok(
            BmmHStarCommitment::BlockNotFound { block_hash: ReverseHex::encode(block_hash) },
        ),
        Some((head, tail)) => {
            let ghost f = commitment_of(sidechain_id);
            let ghost g = |c: Option<ConsensusHex>| opt_view(c);
            let mut ancestors: Vec<Option<ConsensusHex>> = Vec::new();
            for i in 0..tail.len()
                invariant
                    f == commitment_of(sidechain_id),
                    g == (|c: Option<ConsensusHex>| opt_view(c)),
                    ancestors@.map_values(g) == tail@.take(i as int).map_values(f),
            {
                let ghost before = ancestors@;
                let one = commitment(&tail[i], sidechain_id);
                ancestors.push(one);
                proof {
                    assert(ancestors@.map_values(g) =~= before.map_values(g).push(g(one)));
                    assert(tail@.take(i + 1).map_values(f) =~= tail@.take(i as int).map_values(
                        f,
                    ).push(f(tail@[i as int])));
                }
            }
            proof {
                assert(tail@.take(tail@.len() as int) =~= tail@);
                assert(reply->Ok_0@.drop_first() =~= tail@);
            }
            Ok(
                BmmHStarCommitment::Commitment {
                    commitment: commitment(&head, sidechain_id),
                    ancestor_commitments: ancestors,
                },
            )
        },
    }
}

/// How long votes run, and how many it takes.
#[derive(Clone, Copy, Debug, PartialEq, Eq)]
pub struct Thresholds {
    pub withdrawal_bundle_max_age: u16,
    pub withdrawal_bundle_inclusion_threshold: u16,
    pub used_sidechain_slot_proposal_max_age: u16,
    pub used_sidechain_slot_activation_threshold: u16,
    pub unused_sidechain_slot_proposal_max_age: u16,
    pub unused_sidechain_slot_activation_threshold: u16,
}

/// The rules of a network.
#[derive(Clone, Copy, Debug, PartialEq, Eq)]
pub struct NetworkParams {
    pub thresholds: Thresholds,
    pub bip300_activation_height: u32,
}

/// The rules of a network as they go out.
#[derive(Clone, Copy, Debug, PartialEq, Eq)]
pub struct Bip300Constants {
    pub withdrawal_bundle_max_age: u32,
    pub withdrawal_bundle_inclusion_threshold: u32,
    pub used_sidechain_slot_proposal_max_age: u32,
    pub used_sidechain_slot_activation_threshold: u32,
    pub unused_sidechain_slot_proposal_max_age: u32,
    pub unused_sidechain_slot_activation_threshold: u32,
    pub activation_height: u32,
}

/// The network and its rules.
#[derive(Debug, PartialEq, Eq)]
pub struct GetChainInfoResponse<N> {
    pub network: N,
    pub bip300_constants: Bip300Constants,
}

/// Answers a request for the network and its rules.
pub fn get_chain_info<N>(network: N, params: &NetworkParams) -> (r: GetChainInfoResponse<N>)
    ensures
        r.network == network,
        ({
            let c = r.bip300_constants;
            let t = params.thresholds;
            &&& c.withdrawal_bundle_max_age == t.withdrawal_bundle_max_age
            &&& c.withdrawal_bundle_inclusion_threshold == t.withdrawal_bundle_inclusion_threshold
            &&& c.used_sidechain_slot_proposal_max_age == t.used_sidechain_slot_proposal_max_age
            &&& c.used_sidechain_slot_activation_threshold
                == t.used_sidechain_slot_activation_threshold
            &&& c.unused_sidechain_slot_proposal_max_age == t.unused_sidechain_slot_proposal_max_age
            &&& c.unused_sidechain_slot_activation_threshold
                == t.unused_sidechain_slot_activation_threshold
            &&& c.activation_height == params.bip300_activation_height
        }),
{
    let thresholds = &params.thresholds;
    GetChainInfoResponse {
        network,
        bip300_constants: Bip300Constants {
            withdrawal_bundle_max_age: thresholds.withdrawal_bundle_max_age as u32,
            withdrawal_bundle_inclusion_threshold: thresholds.withdrawal_bundle_inclusion_threshold
                as u32,
            used_sidechain_slot_proposal_max_age: thresholds.used_sidechain_slot_proposal_max_age
                as u32,
            used_sidechain_slot_activation_threshold:
                thresholds.used_sidechain_slot_activation_threshold as u32,
            unused_sidechain_slot_proposal_max_age: thresholds.unused_sidechain_slot_proposal_max_age
                as u32,
            unused_sidechain_slot_activation_threshold:
                thresholds.unused_sidechain_slot_activation_threshold as u32,
            activation_height: params.bip300_activation_height,
        },
    }
}

/// The header of the tip.
#[derive(Debug, PartialEq, Eq)]
pub struct GetChainTipResponse<H> {
    pub block_header_info: H,
}

/// The tip whose header to read. Without one there is no answer.
pub fn get_chain_tip_query(reply: Result<Option<BlockHash>, ReadError>) -> (r: Result<
    BlockHash,
    RpcError,
>)
    ensures
        match reply {
            Err(e) => r == Err::<BlockHash, _>(
                RpcError::Status { code: e.code, message: e.message },
            ),
            Ok(None) => r == Err::<BlockHash, _>(RpcError::NotSynced),
            Ok(Some(tip)) => r == Ok::<_, RpcError>(tip),
        },
{
    match reply {
        Err(e) => Err(to_connect_error(e)),
        Ok(None) => Err(RpcError::NotSynced),
        Ok(Some(tip)) => Ok(tip),
    }
}

/// Answers a request for the header of the tip.
pub fn get_chain_tip<H>(reply: Result<H, ReadError>) -> (r: Result<
    GetChainTipResponse<H>,
    RpcError,
>)
    ensures
        match reply {
            Err(e) => r == Err::<GetChainTipResponse<H>, _>(
                RpcError::Internal { message: e.message },
            ),
            Ok(header_info) => r == Ok::<_, RpcError>(
                GetChainTipResponse { block_header_info: header_info },
            ),
        },
{
    match reply {
        Err(e) => Err(internal_err(e)),
        Ok(header_info) => Ok(GetChainTipResponse { block_header_info: header_info }),
    }
}

/// A coinbase with messages.
#[derive(Debug, PartialEq, Eq)]
pub struct GetCoinbasePsbtResponse {
    pub psbt: ConsensusHex,
}

/// A coinbase that carries `scripts`, one output each, without value.
pub open spec fn psbt_transaction(scripts: Seq<Seq<u8>>) -> TransactionView {
    TransactionView {
        version: 2,
        lock_time: 0,
        input: Seq::empty(),
        output: scripts.map_values(
            |script: Seq<u8>| TxOutView { value: 0, script_pubkey: script },
        ),
    }
}

/// Script `i` is the first that could not be made.
pub open spec fn first_failure(scripts: Seq<Result<Vec<u8>, ReadError>>, i: int) -> bool {
    0 <= i < scripts.len() && scripts[i] is Err && forall|j: int|
        0 <= j < i ==> (#[trigger] scripts[j]) is Ok
}

/// Answers a request for a coinbase with messages, given their scripts. The first
/// script that could not be made is the refusal.
pub fn get_coinbase_psbt(scripts: Vec<Result<Vec<u8>, ReadError>>) -> (r: Result<
    GetCoinbasePsbtResponse,
    RpcError,
>)
    ensures
        match r {
            Ok(response) => (forall|i: int|
                0 <= i < scripts@.len() ==> (#[trigger] scripts@[i]) is Ok) && response.psbt@
                == transaction_hex(
                psbt_transaction(
                    scripts@.map_values(|script: Result<Vec<u8>, ReadError>| script->Ok_0@),
                ),
            ),
            Err(e) => exists|i: int|
                #![trigger scripts@[i]]
                first_failure(scripts@, i) && e == (RpcError::Internal {
                    message: scripts@[i]->Err_0.message,
                }),
        },
{
    let ghost all = scripts@;
    let ghost want = psbt_transaction(
        all.map_values(|script: Result<Vec<u8>, ReadError>| script->Ok_0@),
    ).output;
    let mut output: Vec<TxOut> = Vec::new();
    for script in it: scripts
        invariant
            it.seq() == all,
            want == psbt_transaction(
                all.map_values(|script: Result<Vec<u8>, ReadError>| script->Ok_0@),
            ).output,
            output@.len() == it.index(),
            forall|j: int| 0 <= j < it.index() ==> (#[trigger] all[j]) is Ok,
            forall|j: int| 0 <= j < it.index() ==> (#[trigger] output@[j])@ == want[j],
    {
        let ghost i = it.index();
        match script {
            Ok(script_pubkey) => {
                output.push(TxOut { value: 0, script_pubkey });
                assert(output@[i]@ == want[i]);
            },
            Err(e) => {
                assert(first_failure(all, i) && all[i] == Err::<Vec<u8>, _>(e));
                return Err(internal_err(e));
            },
        }
    }
    let transaction = Transaction { version: 2, lock_time: 0, input: Vec::new(), output };
    proof {
        assert(transaction@.input =~= Seq::<TxInView>::empty());
        assert(transaction@.output =~= want);
    }
    Ok(GetCoinbasePsbtResponse { psbt: ConsensusHex::encode_transaction(&transaction) })
}

/// The treasury of a sidechain.
#[derive(Debug, PartialEq, Eq)]
pub struct CtipItem {
    pub txid: ReverseHex,
    pub vout: u32,
    pub value: u64,
    pub sequence_number: u64,
}

/// The treasury of a sidechain, if it has one.
#[derive(Debug, PartialEq, Eq)]
pub struct GetCtipResponse {
    pub ctip: Option<CtipItem>,
}

/// What to do once a treasury was looked up.
#[derive(Debug, PartialEq, Eq)]
pub enum CtipStep {
    /// Read the sequence number of the sidechain's treasury.
    ReadSequence { sidechain_number: SidechainNumber, ctip: Ctip },
    /// There is none: answer.
    Respond(GetCtipResponse),
}

/// Takes the treasury of a sidechain that was looked up.
pub fn on_ctip(
    sidechain_number: SidechainNumber,
    reply: Result<Option<Ctip>, ReadError>,
) -> (r: Result<CtipStep, RpcError>)
    ensures
        match reply {
            Err(e) => r == Err::<CtipStep, _>(
                RpcError::Status { code: e.code, message: e.message },
            ),
            Ok(None) => r == Ok::<_, RpcError>(CtipStep::Respond(GetCtipResponse { ctip: None })),
            Ok(Some(ctip)) => r == Ok::<_, RpcError>(
                CtipStep::ReadSequence { sidechain_number, ctip },
            ),
        },
{
    match reply {
        Err(e) => Err(to_connect_error(e)),
        Ok(None) => Ok(CtipStep::Respond(GetCtipResponse { ctip: None })),
        Ok(Some(ctip)) => Ok(CtipStep::ReadSequence { sidechain_number, ctip }),
    }
}

/// Answers a request for a treasury. A sidechain with a treasury has a sequence
/// number.
pub fn get_ctip(ctip: &Ctip, reply: Result<Option<u64>, ReadError>) -> (r: Result<
    GetCtipResponse,
    RpcError,
>)
    requires
        reply matches Ok(sequence_number) ==> sequence_number is Some,
    ensures
        match reply {
            Err(e) => r == Err::<GetCtipResponse, _>(
                RpcError::Status { code: e.code, message: e.message },
            ),
            Ok(sequence_number) => r matches Ok(response) && response.ctip matches Some(item)
                && item.txid@ == display_hash(ctip.outpoint.txid) && item.vout
                == ctip.outpoint.vout && item.value == ctip.value && Some(item.sequence_number)
                == sequence_number,
        },
{
    match reply {
        Err(e) => Err(to_connect_error(e)),
        Ok(sequence_number) => Ok(
            GetCtipResponse {
                ctip: Some(
                    CtipItem {
                        txid: ReverseHex::encode(&ctip.outpoint.txid),
                        vout: ctip.outpoint.vout,
                        value: ctip.value,
                        sequence_number: sequence_number.unwrap(),
                    },
                ),
            },
        ),
    }
}

/// The age of a sidechain proposal at the tip, in blocks. A proposal that was kept
/// from an earlier sync can lie above the tip; its age is zero.
pub fn proposal_age(mainchain_tip_height: u32, proposal_height: u32) -> (r: u32)
    ensures
        r == age(mainchain_tip_height, proposal_height),
{
    mainchain_tip_height.saturating_sub(proposal_height)
}

/// The age of a proposal at the tip, in blocks; zero for one above the tip.
pub open spec fn age(tip_height: u32, proposal_height: u32) -> int {
    if proposal_height <= tip_height {
        tip_height - proposal_height
    } else {
        0
    }
}

/// A proposed sidechain.
#[derive(Debug, PartialEq, Eq)]
pub struct SidechainProposalItem<D> {
    pub sidechain_number: u32,
    pub description: ConsensusHex,
    pub declaration: Option<D>,
    pub description_sha256d_hash: ReverseHex,
    pub vote_count: u32,
    pub proposal_height: u32,
    pub proposal_age: u32,
}

/// View of [`SidechainProposalItem`].
pub struct SidechainProposalItemView<D> {
    pub sidechain_number: u32,
    pub description: Seq<char>,
    pub declaration: Option<D>,
    pub description_sha256d_hash: Seq<char>,
    pub vote_count: u32,
    pub proposal_height: u32,
    pub proposal_age: int,
}

impl<D> View for SidechainProposalItem<D> {
    type V = SidechainProposalItemView<D>;

    open spec fn view(&self) -> SidechainProposalItemView<D> {
        SidechainProposalItemView {
            sidechain_number: self.sidechain_number,
            description: self.description@,
            declaration: self.declaration,
            description_sha256d_hash: self.description_sha256d_hash@,
            vote_count: self.vote_count,
            proposal_height: self.proposal_height,
            proposal_age: self.proposal_age as int,
        }
    }
}

/// The proposed sidechains.
#[derive(Debug, PartialEq, Eq)]
pub struct GetSidechainProposalsResponse<D> {
    pub sidechain_proposals: Vec<SidechainProposalItem<D>>,
}

/// A proposed sidechain as it goes out.
pub open spec fn proposal_item<D>(
    mainchain_tip_height: u32,
) -> spec_fn((SidechainProposalId, Sidechain<D>)) -> SidechainProposalItemView<D> {
    |entry: (SidechainProposalId, Sidechain<D>)|
        SidechainProposalItemView {
            sidechain_number: entry.1.proposal.sidechain_number.0 as u32,
            description: bytes_hex(entry.1.proposal.description@),
            declaration: entry.1.declaration,
            description_sha256d_hash: display_hash(entry.0.description_hash),
            vote_count: entry.1.status.vote_count as u32,
            proposal_height: entry.1.status.proposal_height,
            proposal_age: age(mainchain_tip_height, entry.1.status.proposal_height),
        }
}

/// What to do once the tip was looked up.
#[derive(Debug, PartialEq, Eq)]
pub enum ProposalsStep<D> {
    /// Read the height of the tip, then the sidechains.
    ReadTip(BlockHash),
    /// There is no tip: answer.
    Respond(GetSidechainProposalsResponse<D>),
}

/// Takes the tip. Without one there are no proposals.
pub fn on_proposals_tip<D>(reply: Result<Option<BlockHash>, ReadError>) -> (r: Result<
    ProposalsStep<D>,
    RpcError,
>)
    ensures
        match reply {
            Err(e) => r == Err::<ProposalsStep<D>, _>(
                RpcError::Status { code: e.code, message: e.message },
            ),
            Ok(None) => r matches Ok(ProposalsStep::Respond(response))
                && response.sidechain_proposals@ == Seq::<SidechainProposalItem<D>>::empty(),
            Ok(Some(tip)) => r == Ok::<_, RpcError>(ProposalsStep::<D>::ReadTip(tip)),
        },
{
    match reply {
        Err(e) => Err(to_connect_error(e)),
        Ok(None) => Ok(
            ProposalsStep::Respond(
                GetSidechainProposalsResponse { sidechain_proposals: Vec::new() },
            ),
        ),
        Ok(Some(tip)) => Ok(ProposalsStep::ReadTip(tip)),
    }
}

/// Takes the height of the tip.
pub fn on_proposals_height(reply: Result<u32, ReadError>) -> (r: Result<u32, RpcError>)
    ensures
        match reply {
            Err(e) => r == Err::<u32, _>(RpcError::Status { code: e.code, message: e.message }),
            Ok(height) => r == Ok::<_, RpcError>(height),
        },
{
    match reply {
        Err(e) => Err(to_connect_error(e)),
        Ok(height) => Ok(height),
    }
}

/// Answers a request for the proposed sidechains.
pub fn get_sidechain_proposals<D>(
    mainchain_tip_height: u32,
    reply: Result<Vec<(SidechainProposalId, Sidechain<D>)>, ReadError>,
) -> (r: Result<GetSidechainProposalsResponse<D>, RpcError>)
    ensures
        match reply {
            Err(e) => r == Err::<GetSidechainProposalsResponse<D>, _>(
                RpcError::Status { code: e.code, message: e.message },
            ),
            Ok(proposals) => r matches Ok(response) && views(response.sidechain_proposals@)
                == proposals@.map_values(proposal_item(mainchain_tip_height)),
        },
{
    broadcast use views_push;

    let proposals = match reply {
        Err(e) => return Err(to_connect_error(e)),
        Ok(proposals) => proposals,
    };
    let ghost all = proposals@;
    let ghost f = proposal_item::<D>(mainchain_tip_height);
    let mut items: Vec<SidechainProposalItem<D>> = Vec::new();
    for entry in it: proposals
        invariant
            it.seq() == all,
            f == proposal_item::<D>(mainchain_tip_height),
            views(items@) == all.take(it.index()).map_values(f),
    {
        let ghost i = it.index();
        let ghost before = views(items@);
        let (proposal_id, sidechain) = entry;
        let item = SidechainProposalItem {
            sidechain_number: sidechain.proposal.sidechain_number.0 as u32,
            description: ConsensusHex::encode_bytes(&sidechain.proposal.description),
            declaration: sidechain.declaration,
            description_sha256d_hash: ReverseHex::encode(&proposal_id.description_hash),
            vote_count: sidechain.status.vote_count as u32,
            proposal_height: sidechain.status.proposal_height,
            proposal_age: proposal_age(mainchain_tip_height, sidechain.status.proposal_height),
        };
        assert(item@ == f(all[i]));
        items.push(item);
        assert(views(items@) == before.push(f(all[i])));
        assert(views(items@) =~= all.take(i + 1).map_values(f));
    }
    assert(all.take(all.len() as int) =~= all);
    Ok(GetSidechainProposalsResponse { sidechain_proposals: items })
}

/// The active sidechains.
#[derive(Debug, PartialEq, Eq)]
pub struct GetSidechainsResponse<S> {
    pub sidechains: Vec<S>,
}

/// Answers a request for the active sidechains.
pub fn get_sidechains<S>(reply: Result<Vec<S>, ReadError>) -> (r: Result<
    GetSidechainsResponse<S>,
    RpcError,
>)
    ensures
        match reply {
            Err(e) => r == Err::<GetSidechainsResponse<S>, _>(
                RpcError::Status { code: e.code, message: e.message },
            ),
            Ok(sidechains) => r == Ok::<_, RpcError>(GetSidechainsResponse { sidechains }),
        },
{
    match reply {
        Err(e) => Err(to_connect_error(e)),
        Ok(sidechains) => Ok(GetSidechainsResponse { sidechains }),
    }
}

/// Blocks with deposits or withdrawals of a sidechain.
#[derive(Debug, PartialEq, Eq)]
pub struct GetTwoWayPegDataResponse<B> {
    pub blocks: Vec<B>,
}

/// Answers a request for deposits and withdrawals. Blocks that have none for the
/// sidechain are left out.
pub fn get_two_way_peg_data<B>(reply: Result<Vec<Option<B>>, ReadError>) -> (r: Result<
    GetTwoWayPegDataResponse<B>,
    RpcError,
>)
    ensures
        match reply {
            Err(e) => r == Err::<GetTwoWayPegDataResponse<B>, _>(
                RpcError::Internal { message: e.message },
            ),
            Ok(blocks) => r matches Ok(response) && response.blocks@ == blocks@.filter_map(
                |block: Option<B>| block,
            ),
        },
{
    let blocks = match reply {
        Err(e) => return Err(internal_err(e)),
        Ok(blocks) => blocks,
    };
    let ghost all = blocks@;
    let ghost f = |block: Option<B>| block;
    let mut kept: Vec<B> = Vec::new();
    for block in it: blocks
        invariant
            it.seq() == all,
            f == (|block: Option<B>| block),
            kept@ == all.take(it.index()).filter_map(f),
    {
        proof {
            all.lemma_filter_map_take_succ(f, it.index());
        }
        if let Some(b) = block {
            kept.push(b);
        }
    }
    assert(all.take(all.len() as int) =~= all);
    Ok(GetTwoWayPegDataResponse { blocks: kept })
}

/// A withdrawal bundle.
#[derive(Debug, PartialEq, Eq)]
pub struct BundleItem {
    pub m6id: ConsensusHex,
    pub vote_count: u32,
    pub proposal_height: u32,
}

/// View of [`BundleItem`].
pub struct BundleItemView {
    pub m6id: Seq<char>,
    pub vote_count: u32,
    pub proposal_height: u32,
}

impl View for BundleItem {
    type V = BundleItemView;

    open spec fn view(&self) -> BundleItemView {
        BundleItemView {
            m6id: self.m6id@,
            vote_count: self.vote_count,
            proposal_height: self.proposal_height,
        }
    }
}

/// The withdrawal bundles of a sidechain.
#[derive(Debug, PartialEq, Eq)]
pub struct GetWithdrawalBundleProposalsResponse {
    pub proposals: Vec<BundleItem>,
}

/// A withdrawal bundle as it goes out.
pub open spec fn bundle_item() -> spec_fn((M6id, PendingM6idInfo)) -> BundleItemView {
    |bundle: (M6id, PendingM6idInfo)|
        BundleItemView {
            m6id: hash_hex(bundle.0),
            vote_count: bundle.1.vote_count as u32,
            proposal_height: bundle.1.proposal_height,
        }
}

/// Answers a request for the withdrawal bundles of a sidechain.
pub fn get_withdrawal_bundle_proposals(
    reply: Result<Vec<(M6id, PendingM6idInfo)>, ReadError>,
) -> (r: Result<GetWithdrawalBundleProposalsResponse, RpcError>)
    ensures
        match reply {
            Err(e) => r == Err::<GetWithdrawalBundleProposalsResponse, _>(
                RpcError::Internal { message: e.message },
            ),
            Ok(bundles) => r matches Ok(response) && views(response.proposals@)
                == bundles@.map_values(bundle_item()),
        },
{
    broadcast use views_push;

    let bundles = match reply {
        Err(e) => return Err(internal_err(e)),
        Ok(bundles) => bundles,
    };
    let ghost f = bundle_item();
    let mut proposals: Vec<BundleItem> = Vec::new();
    for i in 0..bundles.len()
        invariant
            f == bundle_item(),
            views(proposals@) == bundles@.take(i as int).map_values(f),
    {
        let ghost before = views(proposals@);
        let (m6id, info) = bundles[i];
        let item = BundleItem {
            m6id: ConsensusHex::encode_hash(&m6id),
            vote_count: info.vote_count as u32,
            proposal_height: info.proposal_height,
        };
        assert(item@ == f(bundles@[i as int]));
        proposals.push(item);
        assert(views(proposals@) == before.push(f(bundles@[i as int])));
        assert(views(proposals@) =~= bundles@.take(i + 1).map_values(f));
    }
    assert(bundles@.take(bundles@.len() as int) =~= bundles@);
    Ok(GetWithdrawalBundleProposalsResponse { proposals })
}

/// An event of a subscription.
#[derive(Debug, PartialEq, Eq)]
pub struct SubscribeEventsResponse<E> {
    pub event: E,
}

/// Passes on one event of a subscription, or why the subscription failed.
pub fn subscribe_events_item<E>(event: Result<E, ReadError>) -> (r: Result<
    SubscribeEventsResponse<E>,
    RpcError,
>)
    ensures
        match event {
            Err(e) => r == Err::<SubscribeEventsResponse<E>, _>(
                RpcError::Status { code: e.code, message: e.message },
            ),
            Ok(event) => r == Ok::<_, RpcError>(SubscribeEventsResponse { event }),
        },
{
    match event {
        Err(e) => Err(to_connect_error(e)),
        Ok(event) => Ok(SubscribeEventsResponse { event }),
    }
}

/// The progress of a header sync to follow. There is none unless a sync is going
/// on.
pub fn subscribe_header_sync_progress<P>(progress: Option<P>) -> (r: Result<P, RpcError>)
    ensures
        match progress {
            Some(p) => r == Ok::<_, RpcError>(p),
            None => r == Err::<P, _>(RpcError::NoHeaderSync),
        },
{
    match progress {
        Some(p) => Ok(p),
        None => Err(RpcError::NoHeaderSync),
    }
}

/// Whether the shutdown is on once a stop was asked for, and what the stop is
/// answered. The shutdown is on whatever the answer, and only a stop that turned
/// it on succeeds.
pub open spec fn stop_outcome(cancelled: bool) -> (bool, Result<(), RpcError>) {
    (
        true,
        if cancelled {
            Err(RpcError::AlreadyShuttingDown)
        } else {
            Ok(())
        },
    )
}

/// What a stop is answered: it succeeds the first time, and never again.
pub fn stop(cancelled: bool) -> (r: Result<(), RpcError>)
    ensures
        r == stop_outcome(cancelled).1,
{
    if cancelled {
        Err(RpcError::AlreadyShuttingDown)
    } else {
        Ok(())
    }
}

/// Takes a stop: whether the shutdown is on from now, and what the stop is
/// answered.
pub fn stop_step(cancelled: bool) -> (r: (bool, Result<(), RpcError>))
    ensures
        r.0,
        r.1 == (if cancelled {
            Err::<(), _>(RpcError::AlreadyShuttingDown)
        } else {
            Ok(())
        }),
        r == stop_outcome(cancelled),
{
    (true, stop(cancelled))
}

} // verus!
