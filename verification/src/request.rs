//! What clients ask for, and what is read from the validator for them.
use vstd::prelude::*;

use crate::error::{Field, RequestKind, RpcError, MAX_BIP300_BLOCK_DELTA_ANCESTORS};
use crate::messages::{
    CoinbaseMessage, IntoMessage, M1ProposeSidechain, M2AckSidechain, M3ProposeBundle,
};
use crate::search::{try_flat_map, try_flat_map_stops};
use crate::types::{BlockHash, SidechainNumber};
use crate::wire::{undisplay_hash, ReverseHex};

verus! {

/// Asks for the header of a block and of ancestors of it.
#[derive(Debug, PartialEq, Eq)]
pub struct GetBlockHeaderInfoRequest {
    pub block_hash: Option<ReverseHex>,
    pub max_ancestors: Option<u32>,
}

/// Asks for what a block and ancestors of it did to a sidechain.
#[derive(Debug, PartialEq, Eq)]
pub struct GetBlockInfoRequest {
    pub block_hash: Option<ReverseHex>,
    pub sidechain_id: Option<u32>,
    pub max_ancestors: Option<u32>,
}

/// Asks for everything that a block and ancestors of it did to sidechains.
#[derive(Debug, PartialEq, Eq)]
pub struct GetBip300BlockDeltaRequest {
    pub block_hash: Option<ReverseHex>,
    pub max_ancestors: Option<u32>,
}

/// Asks for the sidechain blocks that a block and ancestors of it commit to.
#[derive(Debug, PartialEq, Eq)]
pub struct GetBmmHStarCommitmentRequest {
    pub block_hash: Option<ReverseHex>,
    pub sidechain_id: Option<u32>,
    pub max_ancestors: Option<u32>,
}

/// Asks for the treasury of a sidechain.
#[derive(Debug, PartialEq, Eq)]
pub struct GetCtipRequest {
    pub sidechain_number: Option<u32>,
}

/// Asks for deposits and withdrawals of a sidechain in a range of blocks.
#[derive(Debug, PartialEq, Eq)]
pub struct GetTwoWayPegDataRequest {
    pub sidechain_id: Option<u32>,
    pub start_block_hash: Option<ReverseHex>,
    pub end_block_hash: Option<ReverseHex>,
}

/// Asks for the withdrawal bundles of a sidechain.
#[derive(Debug, PartialEq, Eq)]
pub struct GetWithdrawalBundleProposalsRequest {
    pub sidechain_id: Option<u32>,
}

/// Asks to be told of the blocks of a sidechain.
#[derive(Debug, PartialEq, Eq)]
pub struct SubscribeEventsRequest {
    pub sidechain_id: Option<u32>,
}

/// Asks for a coinbase with messages. Each message stands as it was read, or with
/// why it could not be.
#[derive(Debug, PartialEq, Eq)]
pub struct GetCoinbasePsbtRequest {
    pub propose_sidechains: Vec<Result<M1ProposeSidechain, RpcError>>,
    pub ack_sidechains: Vec<Result<M2AckSidechain, RpcError>>,
    pub propose_bundles: Vec<Result<M3ProposeBundle, RpcError>>,
    pub ack_bundles: Option<Result<CoinbaseMessage, RpcError>>,
}

/// A block and how many ancestors of it to read.
#[derive(Clone, Copy, Debug, PartialEq, Eq)]
pub struct AncestorsQuery {
    pub block_hash: BlockHash,
    pub max_ancestors: usize,
}

/// A block and how many ancestors of it to read, for one sidechain.
#[derive(Clone, Copy, Debug, PartialEq, Eq)]
pub struct SidechainAncestorsQuery {
    pub block_hash: BlockHash,
    pub sidechain_id: SidechainNumber,
    pub max_ancestors: usize,
}

/// A range of blocks to read, for one sidechain. A range without a start goes back
/// to the first block.
#[derive(Clone, Copy, Debug, PartialEq, Eq)]
pub struct TwoWayPegQuery {
    pub sidechain_id: SidechainNumber,
    pub start_block_hash: Option<BlockHash>,
    pub end_block_hash: BlockHash,
}

/// The hash in a field that may hold anything.
pub open spec fn decoded(request: RequestKind, field: Field, text: Seq<char>) -> Result<
    Seq<u8>,
    RpcError,
> {
    match undisplay_hash(text) {
        Some(h) => Ok(h),
        None => Err(RpcError::InvalidField { request, field }),
    }
}

/// The hash in a field that must be there.
pub open spec fn required_hash(
    request: RequestKind,
    field: Field,
    value: Option<ReverseHex>,
) -> Result<Seq<u8>, RpcError> {
    match value {
        Some(text) => decoded(request, field, text@),
        None => Err(RpcError::MissingField { request, field }),
    }
}

/// The sidechain in a field that must be there.
pub open spec fn sidechain_field(request: RequestKind, field: Field, value: Option<u32>) -> Result<
    SidechainNumber,
    RpcError,
> {
    match value {
        Some(n) => if n <= u8::MAX {
            Ok(SidechainNumber(n as u8))
        } else {
            Err(RpcError::InvalidField { request, field })
        },
        None => Err(RpcError::MissingField { request, field }),
    }
}

/// A number of ancestors that was left out is none.
pub open spec fn ancestors(max_ancestors: Option<u32>) -> u32 {
    match max_ancestors {
        Some(n) => n,
        None => 0,
    }
}

/// Reads a hash.
fn decode_status(request: RequestKind, field: Field, value: &ReverseHex) -> (r: Result<
    BlockHash,
    RpcError,
>)
    ensures
        match r {
            Ok(h) => decoded(request, field, value@) == Ok::<_, RpcError>(h@),
            Err(e) => decoded(request, field, value@) == Err::<Seq<u8>, _>(e),
        },
{
    match value.decode() {
        Some(h) => Ok(h),
        None => Err(RpcError::InvalidField { request, field }),
    }
}

/// Reads a hash that must be there.
fn require_hash(request: RequestKind, field: Field, value: &Option<ReverseHex>) -> (r: Result<
    BlockHash,
    RpcError,
>)
    ensures
        match r {
            Ok(h) => required_hash(request, field, *value) == Ok::<_, RpcError>(h@),
            Err(e) => required_hash(request, field, *value) == Err::<Seq<u8>, _>(e),
        },
{
    match value {
        Some(text) => decode_status(request, field, text),
        None => Err(RpcError::MissingField { request, field }),
    }
}

/// Reads a sidechain that must be there.
pub fn parse_sidechain_id(request: RequestKind, field: Field, value: Option<u32>) -> (r: Result<
    SidechainNumber,
    RpcError,
>)
    ensures
        r == sidechain_field(request, field, value),
{
    match value {
        Some(n) => if n <= 255 {
            Ok(SidechainNumber(n as u8))
        } else {
            Err(RpcError::InvalidField { request, field })
        },
        None => Err(RpcError::MissingField { request, field }),
    }
}

/// What to read for a request for headers.
pub fn get_block_header_info_query(request: &GetBlockHeaderInfoRequest) -> (r: Result<
    AncestorsQuery,
    RpcError,
>)
    ensures
        match required_hash(
            RequestKind::GetBlockHeaderInfo,
            Field::BlockHash,
            request.block_hash,
        ) {
            Err(e) => r == Err::<AncestorsQuery, _>(e),
            Ok(h) => r matches Ok(query) && query.block_hash@ == h && query.max_ancestors
                == ancestors(request.max_ancestors),
        },
{
    match require_hash(RequestKind::GetBlockHeaderInfo, Field::BlockHash, &request.block_hash) {
        Ok(block_hash) => Ok(
            AncestorsQuery {
                block_hash,
                max_ancestors: request.max_ancestors.unwrap_or(0) as usize,
            },
        ),
        Err(e) => Err(e),
    }
}

/// What to read for a request for what blocks did to a sidechain.
pub fn get_block_info_query(request: &GetBlockInfoRequest) -> (r: Result<
    SidechainAncestorsQuery,
    RpcError,
>)
    ensures
        match (
            required_hash(RequestKind::GetBlockInfo, Field::BlockHash, request.block_hash),
            sidechain_field(RequestKind::GetBlockInfo, Field::SidechainId, request.sidechain_id),
        ) {
            (Err(e), _) => r == Err::<SidechainAncestorsQuery, _>(e),
            (Ok(_), Err(e)) => r == Err::<SidechainAncestorsQuery, _>(e),
            (Ok(h), Ok(n)) => r matches Ok(query) && query.block_hash@ == h && query.sidechain_id
                == n && query.max_ancestors == ancestors(request.max_ancestors),
        },
{
    let block_hash = match require_hash(
        RequestKind::GetBlockInfo,
        Field::BlockHash,
        &request.block_hash,
    ) {
        Ok(block_hash) => block_hash,
        Err(e) => return Err(e),
    };
    match parse_sidechain_id(RequestKind::GetBlockInfo, Field::SidechainId, request.sidechain_id) {
        Ok(sidechain_id) => Ok(
            SidechainAncestorsQuery {
                block_hash,
                sidechain_id,
                max_ancestors: request.max_ancestors.unwrap_or(0) as usize,
            },
        ),
        Err(e) => Err(e),
    }
}

/// What to read for a request for deltas. More ancestors than the limit are
/// refused.
pub fn get_bip300_block_delta_query(request: &GetBip300BlockDeltaRequest) -> (r: Result<
    AncestorsQuery,
    RpcError,
>)
    ensures
        match required_hash(
            RequestKind::GetBip300BlockDelta,
            Field::BlockHash,
            request.block_hash,
        ) {
            Err(e) => r == Err::<AncestorsQuery, _>(e),
            Ok(h) => if ancestors(request.max_ancestors) > MAX_BIP300_BLOCK_DELTA_ANCESTORS {
                r == Err::<AncestorsQuery, _>(RpcError::TooManyAncestors)
            } else {
                r matches Ok(query) && query.block_hash@ == h && query.max_ancestors == ancestors(
                    request.max_ancestors,
                )
            },
        },
{
    let block_hash = match require_hash(
        RequestKind::GetBip300BlockDelta,
        Field::BlockHash,
        &request.block_hash,
    ) {
        Ok(block_hash) => block_hash,
        Err(e) => return Err(e),
    };
    let max_ancestors: u32 = request.max_ancestors.unwrap_or(0);
    if max_ancestors > MAX_BIP300_BLOCK_DELTA_ANCESTORS {
        return Err(RpcError::TooManyAncestors);
    }
    Ok(AncestorsQuery { block_hash, max_ancestors: max_ancestors as usize })
}

/// What to read for a request for commitments.
pub fn get_bmm_h_star_commitment_query(request: &GetBmmHStarCommitmentRequest) -> (r: Result<
    SidechainAncestorsQuery,
    RpcError,
>)
    ensures
        match (
            required_hash(
                RequestKind::GetBmmHStarCommitment,
                Field::BlockHash,
                request.block_hash,
            ),
            sidechain_field(
                RequestKind::GetBmmHStarCommitment,
                Field::SidechainId,
                request.sidechain_id,
            ),
        ) {
            (Err(e), _) => r == Err::<SidechainAncestorsQuery, _>(e),
            (Ok(_), Err(e)) => r == Err::<SidechainAncestorsQuery, _>(e),
            (Ok(h), Ok(n)) => r matches Ok(query) && query.block_hash@ == h && query.sidechain_id
                == n && query.max_ancestors == ancestors(request.max_ancestors),
        },
{
    let block_hash = match require_hash(
        RequestKind::GetBmmHStarCommitment,
        Field::BlockHash,
        &request.block_hash,
    ) {
        Ok(block_hash) => block_hash,
        Err(e) => return Err(e),
    };
    match parse_sidechain_id(
        RequestKind::GetBmmHStarCommitment,
        Field::SidechainId,
        request.sidechain_id,
    ) {
        Ok(sidechain_id) => Ok(
            SidechainAncestorsQuery {
                block_hash,
                sidechain_id,
                max_ancestors: request.max_ancestors.unwrap_or(0) as usize,
            },
        ),
        Err(e) => Err(e),
    }
}

/// What to read for a request for a treasury.
pub fn get_ctip_query(request: &GetCtipRequest) -> (r: Result<SidechainNumber, RpcError>)
    ensures
        r == sidechain_field(
            RequestKind::GetCtip,
            Field::SidechainNumber,
            request.sidechain_number,
        ),
{
    parse_sidechain_id(RequestKind::GetCtip, Field::SidechainNumber, request.sidechain_number)
}

/// The start of a range of blocks.
pub open spec fn start_hash(value: Option<ReverseHex>) -> Result<Option<Seq<u8>>, RpcError> {
    match value {
        Some(text) => match decoded(RequestKind::GetTwoWayPegData, Field::StartBlockHash, text@) {
            Ok(h) => Ok(Some(h)),
            Err(e) => Err(e),
        },
        None => Ok(None),
    }
}

/// What to read for a request for deposits and withdrawals.
pub fn get_two_way_peg_data_query(request: &GetTwoWayPegDataRequest) -> (r: Result<
    TwoWayPegQuery,
    RpcError,
>)
    ensures
        match (
            sidechain_field(
                RequestKind::GetTwoWayPegData,
                Field::SidechainId,
                request.sidechain_id,
            ),
            start_hash(request.start_block_hash),
            required_hash(
                RequestKind::GetTwoWayPegData,
                Field::EndBlockHash,
                request.end_block_hash,
            ),
        ) {
            (Err(e), _, _) => r == Err::<TwoWayPegQuery, _>(e),
            (Ok(_), Err(e), _) => r == Err::<TwoWayPegQuery, _>(e),
            (Ok(_), Ok(_), Err(e)) => r == Err::<TwoWayPegQuery, _>(e),
            (Ok(n), Ok(start), Ok(end)) => r matches Ok(query) && query.sidechain_id == n && (
            match query.start_block_hash {
                Some(h) => start == Some(h@),
                None => start is None,
            }) && query.end_block_hash@ == end,
        },
{
    let sidechain_id = match parse_sidechain_id(
        RequestKind::GetTwoWayPegData,
        Field::SidechainId,
        request.sidechain_id,
    ) {
        Ok(sidechain_id) => sidechain_id,
        Err(e) => return Err(e),
    };
    let start_block_hash = match &request.start_block_hash {
        Some(text) => match decode_status(
            RequestKind::GetTwoWayPegData,
            Field::StartBlockHash,
            text,
        ) {
            Ok(h) => Some(h),
            Err(e) => return Err(e),
        },
        None => None,
    };
    match require_hash(
        RequestKind::GetTwoWayPegData,
        Field::EndBlockHash,
        &request.end_block_hash,
    ) {
        Ok(end_block_hash) => Ok(TwoWayPegQuery { sidechain_id, start_block_hash, end_block_hash }),
        Err(e) => Err(e),
    }
}

/// What to read for a request for withdrawal bundles. A refusal names the request
/// for deposits and withdrawals.
pub fn get_withdrawal_bundle_proposals_query(
    request: &GetWithdrawalBundleProposalsRequest,
) -> (r: Result<SidechainNumber, RpcError>)
    ensures
        r == sidechain_field(
            RequestKind::GetTwoWayPegData,
            Field::SidechainId,
            request.sidechain_id,
        ),
{
    parse_sidechain_id(RequestKind::GetTwoWayPegData, Field::SidechainId, request.sidechain_id)
}

/// What to follow for a subscription.
pub fn subscribe_events_query(request: &SubscribeEventsRequest) -> (r: Result<
    SidechainNumber,
    RpcError,
>)
    ensures
        r == sidechain_field(
            RequestKind::SubscribeEvents,
            Field::SidechainId,
            request.sidechain_id,
        ),
{
    parse_sidechain_id(RequestKind::SubscribeEvents, Field::SidechainId, request.sidechain_id)
}

/// What was read of a message, as a list of that message.
pub open spec fn one_message<T: IntoMessage>() -> spec_fn(Result<T, RpcError>) -> Result<
    Seq<CoinbaseMessage>,
    RpcError,
> {
    |m: Result<T, RpcError>|
        match m {
            Ok(message) => Ok(seq![message.message()]),
            Err(e) => Err(e),
        }
}

/// The votes on bundles, which must be there.
pub open spec fn m4_message(ack_bundles: Option<Result<CoinbaseMessage, RpcError>>) -> Result<
    CoinbaseMessage,
    RpcError,
> {
    match ack_bundles {
        Some(m4) => m4,
        None => Err(
            RpcError::MissingField {
                request: RequestKind::GetCoinbasePsbt,
                field: Field::AckBundles,
            },
        ),
    }
}

/// The messages of a coinbase: proposals of sidechains, votes on them, proposals
/// of bundles, then the votes on bundles. The first that could not be read is the
/// refusal.
pub open spec fn psbt_messages(request: GetCoinbasePsbtRequest) -> Result<
    Seq<CoinbaseMessage>,
    RpcError,
> {
    match (
        try_flat_map(request.propose_sidechains@, one_message::<M1ProposeSidechain>()),
        try_flat_map(request.ack_sidechains@, one_message::<M2AckSidechain>()),
        try_flat_map(request.propose_bundles@, one_message::<M3ProposeBundle>()),
        m4_message(request.ack_bundles),
    ) {
        (Err(e), _, _, _) => Err(e),
        (Ok(_), Err(e), _, _) => Err(e),
        (Ok(_), Ok(_), Err(e), _) => Err(e),
        (Ok(_), Ok(_), Ok(_), Err(e)) => Err(e),
        (Ok(m1s), Ok(m2s), Ok(m3s), Ok(m4)) => Ok((m1s + m2s + m3s).push(m4)),
    }
}

/// Appends messages, up to the first that could not be read.
fn push_messages<T: IntoMessage>(
    out: &mut Vec<CoinbaseMessage>,
    list: Vec<Result<T, RpcError>>,
) -> (r: Result<(), RpcError>)
    ensures
        match r {
            Ok(_) => try_flat_map(list@, one_message::<T>()) matches Ok(more) && final(out)@
                == old(out)@ + more,
            Err(e) => try_flat_map(list@, one_message::<T>()) == Err::<Seq<CoinbaseMessage>, _>(e),
        },
{
    let ghost all = list@;
    let ghost before = out@;
    let ghost f = one_message::<T>();
    assert(out@ =~= before + Seq::empty());
    for m in it: list
        invariant
            it.seq() == all,
            f == one_message::<T>(),
            try_flat_map(all.take(it.index()), f) matches Ok(more) && out@ == before + more,
    {
        let ghost i = it.index();
        proof {
            assert(all.take(i + 1).drop_last() =~= all.take(i));
            assert(all.take(i + 1).last() == all[i]);
        }
        match m {
            Ok(message) => {
                out.push(message.into_message());
                proof {
                    let more = try_flat_map(all.take(i), f)->Ok_0;
                    assert(out@ =~= before + (more + seq![message.message()]));
                }
            },
            Err(e) => {
                proof {
                    try_flat_map_stops(all, f, i + 1);
                }
                return Err(e);
            },
        }
    }
    assert(all.take(all.len() as int) =~= all);
    Ok(())
}

/// The messages of the coinbase that is asked for.
pub fn get_coinbase_psbt_messages(request: GetCoinbasePsbtRequest) -> (r: Result<
    Vec<CoinbaseMessage>,
    RpcError,
>)
    ensures
        match r {
            Ok(messages) => psbt_messages(request) == Ok::<_, RpcError>(messages@),
            Err(e) => psbt_messages(request) == Err::<Seq<CoinbaseMessage>, _>(e),
        },
{
    let mut messages: Vec<CoinbaseMessage> = Vec::new();
    if let Err(e) = push_messages(&mut messages, request.propose_sidechains) {
        return Err(e);
    }
    if let Err(e) = push_messages(&mut messages, request.ack_sidechains) {
        return Err(e);
    }
    if let Err(e) = push_messages(&mut messages, request.propose_bundles) {
        return Err(e);
    }
    match request.ack_bundles {
        Some(Ok(m4)) => {
            messages.push(m4);
            assert(messages@ =~= psbt_messages(request)->Ok_0);
            Ok(messages)
        },
        Some(Err(e)) => Err(e),
        None => Err(
            RpcError::MissingField {
                request: RequestKind::GetCoinbasePsbt,
                field: Field::AckBundles,
            },
        ),
    }
}

} // verus!
