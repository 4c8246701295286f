//! Requests for blind merged mining that a block honoured.
use vstd::prelude::*;

use crate::chain::{compute_txid, txid_of};
use crate::coinbase::is_committed;
use crate::error::{display_hash, reverse_hex};
use crate::messages::{M8BmmRequest, MessageReadings};
use crate::search::places;
use crate::treasury::Server;
use crate::types::{lookup, Block, BlockInfo, Transaction};
use crate::wire::{
    hash_hex, transaction_hex, views, views_push, ConfirmedBmmRequest, ConfirmedBmmRequestView,
    ConsensusHex, ReverseHex,
};

verus! {

/// The block honours `request`: it follows the block that the request names, and
/// commits to the sidechain block that it asks for.
pub open spec fn honours(block: Block, block_info: BlockInfo, request: M8BmmRequest) -> bool {
    lookup(block_info.bmm_commitments@, request.sidechain_number) == Some(
        request.sidechain_block_hash,
    ) && request.prev_mainchain_block_hash == block.header.prev_blockhash
}

/// A request as it goes out.
pub open spec fn confirmed_view(tx: Transaction, request: M8BmmRequest) -> ConfirmedBmmRequestView {
    ConfirmedBmmRequestView {
        sidechain_number: request.sidechain_number.0 as u32,
        txid: reverse_hex(txid_of(tx@)),
        transaction: transaction_hex(tx@),
        hstar: hash_hex(request.sidechain_block_hash),
        previous_mainchain_block_hash: display_hash(request.prev_mainchain_block_hash),
        fee_sats: None,
    }
}

/// The honoured request of transaction `i`. The coinbase asks for nothing.
pub open spec fn confirmed_at(
    block: Block,
    readings: MessageReadings,
    block_info: BlockInfo,
) -> spec_fn(int) -> Option<ConfirmedBmmRequestView> {
    |i: int|
        match readings.request(i) {
            Some(request) => if i > 0 && honours(block, block_info, request) {
                Some(confirmed_view(block.txdata@[i], request))
            } else {
                None
            },
            None => None,
        }
}

/// The honoured requests of a block in the order of its transactions.
pub open spec fn confirmed_bmm_requests_view(
    block: Block,
    readings: MessageReadings,
    block_info: BlockInfo,
) -> Seq<ConfirmedBmmRequestView> {
    places(block.txdata@.len()).filter_map(confirmed_at(block, readings, block_info))
}

impl Server {
    /// The requests for blind merged mining that a block honoured.
    pub fn confirmed_bmm_requests(
        &self,
        block: &Block,
        readings: &MessageReadings,
        block_info: &BlockInfo,
    ) -> (r: Vec<ConfirmedBmmRequest>)
        requires
            block.encodable(),
        ensures
            views(r@) == confirmed_bmm_requests_view(*block, *readings, *block_info),
    {
        broadcast use views_push;

        let ghost all = places(block.txdata@.len());
        let ghost f = confirmed_at(*block, *readings, *block_info);
        let mut requests: Vec<ConfirmedBmmRequest> = Vec::new();
        assert(views(requests@) =~= Seq::empty());
        for i in 0..block.txdata.len()
            invariant
                block.encodable(),
                all == places(block.txdata@.len()),
                f == confirmed_at(*block, *readings, *block_info),
                views(requests@) == all.take(i as int).filter_map(f),
        {
            let ghost before = views(requests@);
            proof {
                all.lemma_filter_map_take_succ(f, i as int);
            }
            if i > 0 {
                if let Some(request) = readings.get_request(i) {
                    if is_committed(
                        &block_info.bmm_commitments,
                        request.sidechain_number,
                        &request.sidechain_block_hash,
                    ) && request.prev_mainchain_block_hash.same(&block.header.prev_blockhash) {
                        let transaction = &block.txdata[i];
                        let confirmed = ConfirmedBmmRequest {
                            sidechain_number: request.sidechain_number.0 as u32,
                            txid: ReverseHex::encode(&compute_txid(transaction)),
                            transaction: ConsensusHex::encode_transaction(transaction),
                            hstar: ConsensusHex::encode_hash(&request.sidechain_block_hash),
                            previous_mainchain_block_hash: ReverseHex::encode(
                                &request.prev_mainchain_block_hash,
                            ),
                            fee_sats: None,
                        };
                        assert(f(i as int) == Some(confirmed@));
                        requests.push(confirmed);
                        assert(views(requests@) == before.push(confirmed@));
                    }
                }
            }
        }
        assert(all.take(all.len() as int) =~= all);
        requests
    }
}

} // verus!
