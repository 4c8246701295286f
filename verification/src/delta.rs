//! Everything that blocks did to sidechains, one block after the other.
//!
//! A run through blocks alternates reading and deciding. Each state says what to
//! read next and takes the answer: the block, then its changes, then the treasury
//! outputs that the changes are read against.
use vstd::prelude::*;

use crate::bmm::confirmed_bmm_requests_view;
use crate::chain::{block_hash, block_hash_of};
use crate::coinbase::{coinbase_messages, coinbase_messages_view};
use crate::error::{display_hash, internal_err, ReadError, RpcError};
use crate::messages::MessageReadings;
use crate::plan::{block_queries, treasury_queries};
use crate::treasury::{Server, TreasuryQuery};
use crate::types::{Block, BlockDiff, BlockHash, BlockInfo, HeaderInfo};
use crate::wire::{views, views_push, Bip300BlockDelta, Bip300BlockDeltaView, ReverseHex};

verus! {

/// A block that came from the node, with what the message parser made of it.
#[derive(Debug, PartialEq, Eq)]
pub struct FetchedBlock {
    pub block: Block,
    pub readings: MessageReadings,
}

/// The deltas of the blocks that were asked for.
#[derive(Debug, PartialEq, Eq)]
pub struct GetBip300BlockDeltaResponse<H> {
    pub deltas: Vec<Bip300BlockDelta<H>>,
}

/// A run that waits for a block.
#[derive(Debug, PartialEq, Eq)]
pub struct AwaitBlock<H> {
    /// The header of the block that is read next.
    pub header_info: HeaderInfo<H>,
    /// What the validator recorded of that block.
    pub block_info: BlockInfo,
    /// The blocks behind it, the last one first.
    pub rest: Vec<(HeaderInfo<H>, BlockInfo)>,
    /// The deltas of the blocks before it.
    pub deltas: Vec<Bip300BlockDelta<H>>,
}

/// A run that waits for the changes that a block made.
#[derive(Debug, PartialEq, Eq)]
pub struct AwaitDiff<H> {
    /// The run up to the block.
    pub run: AwaitBlock<H>,
    /// The block.
    pub block: FetchedBlock,
}

/// A run that waits for treasury outputs.
#[derive(Debug, PartialEq, Eq)]
pub struct AwaitTreasury<H> {
    /// The run up to the block.
    pub run: AwaitBlock<H>,
    /// The block.
    pub block: FetchedBlock,
    /// The changes that the block made.
    pub block_diff: BlockDiff,
}

/// A run between two blocks.
#[derive(Debug, PartialEq, Eq)]
pub enum DeltaRun<H> {
    /// There is a block to read.
    Next(AwaitBlock<H>),
    /// All blocks have been read.
    Done(GetBip300BlockDeltaResponse<H>),
}

/// The deltas' headers.
pub open spec fn delta_headers<H>(deltas: Seq<Bip300BlockDelta<H>>) -> Seq<H> {
    deltas.map_values(|delta: Bip300BlockDelta<H>| delta.header_info)
}

/// The headers of blocks.
pub open spec fn info_headers<H>(infos: Seq<(HeaderInfo<H>, BlockInfo)>) -> Seq<H> {
    infos.map_values(|info: (HeaderInfo<H>, BlockInfo)| info.0.wire)
}

impl<H> AwaitBlock<H> {
    /// The headers of all blocks of the run, in their order.
    pub open spec fn headers(&self) -> Seq<H> {
        delta_headers(self.deltas@) + seq![self.header_info.wire] + info_headers(
            self.rest@.reverse(),
        )
    }
}

impl<H> DeltaRun<H> {
    /// The headers of all blocks of the run, in their order.
    pub open spec fn headers(&self) -> Seq<H> {
        match *self {
            DeltaRun::Next(run) => run.headers(),
            DeltaRun::Done(response) => delta_headers(response.deltas@),
        }
    }

    /// The deltas that have been made.
    pub open spec fn deltas(&self) -> Seq<Bip300BlockDelta<H>> {
        match *self {
            DeltaRun::Next(run) => run.deltas@,
            DeltaRun::Done(response) => response.deltas@,
        }
    }

    /// The blocks that are left to read, in their order.
    pub open spec fn todo(&self) -> Seq<(HeaderInfo<H>, BlockInfo)> {
        match *self {
            DeltaRun::Next(run) => seq![(run.header_info, run.block_info)] + run.rest@.reverse(),
            DeltaRun::Done(_) => Seq::empty(),
        }
    }
}

/// Everything that a block did to sidechains.
pub open spec fn block_delta<H>(
    server: Server,
    header_info: HeaderInfo<H>,
    block: Block,
    readings: MessageReadings,
    block_info: BlockInfo,
    block_diff: BlockDiff,
) -> Result<Bip300BlockDeltaView<H>, RpcError> {
    match server.transitions(header_info.height, block, block_info, block_diff) {
        Err(e) => Err(e),
        Ok(transitions) => Ok(
            Bip300BlockDeltaView {
                header_info: header_info.wire,
                coinbase_txid: display_hash(block_info.coinbase_txid),
                coinbase_messages: coinbase_messages_view(block, readings, block_info, block_diff),
                treasury_transitions: transitions,
                confirmed_bmm_requests: confirmed_bmm_requests_view(block, readings, block_info),
            },
        ),
    }
}

impl Server {
    /// Everything that a block did to sidechains.
    pub fn bip300_block_delta<H>(
        &self,
        header_info: HeaderInfo<H>,
        block: &Block,
        readings: &MessageReadings,
        block_info: &BlockInfo,
        block_diff: &BlockDiff,
    ) -> (r: Result<Bip300BlockDelta<H>, RpcError>)
        requires
            block.encodable(),
            block_info.encodable(),
        ensures
            match r {
                Ok(delta) => block_delta(
                    *self,
                    header_info,
                    *block,
                    *readings,
                    *block_info,
                    *block_diff,
                ) == Ok::<_, RpcError>(delta@),
                Err(e) => block_delta(
                    *self,
                    header_info,
                    *block,
                    *readings,
                    *block_info,
                    *block_diff,
                ) == Err::<Bip300BlockDeltaView<H>, _>(e),
            },
    {
        let treasury_transitions = match self.treasury_transitions(
            &header_info,
            block,
            block_info,
            block_diff,
        ) {
            Ok(transitions) => transitions,
            Err(e) => return Err(e),
        };
        Ok(
            Bip300BlockDelta {
                header_info: header_info.wire,
                coinbase_txid: ReverseHex::encode(&block_info.coinbase_txid),
                coinbase_messages: coinbase_messages(block, readings, block_info, block_diff),
                treasury_transitions,
                confirmed_bmm_requests: self.confirmed_bmm_requests(block, readings, block_info),
            },
        )
    }
}

/// Reverses a list.
fn reversed<T>(v: Vec<T>) -> (r: Vec<T>)
    ensures
        r@ == v@.reverse(),
{
    let mut v = v;
    let ghost all = v@;
    let mut out: Vec<T> = Vec::new();
    while v.len() > 0
        invariant
            v@ == all.take(v@.len() as int),
            v@.len() <= all.len(),
            out@ == all.skip(v@.len() as int).reverse(),
        decreases v@.len(),
    {
        let ghost n = v@.len();
        if let Some(x) = v.pop() {
            out.push(x);
            assert(v@ =~= all.take(n - 1));
            assert(out@ =~= all.skip(n - 1).reverse());
        }
    }
    assert(all.skip(0) =~= all);
    out
}

/// Goes on to the next of the blocks that are left, which stand last one first.
fn proceed<H>(
    rest: Vec<(HeaderInfo<H>, BlockInfo)>,
    deltas: Vec<Bip300BlockDelta<H>>,
) -> (r: DeltaRun<H>)
    ensures
        r.todo() == rest@.reverse(),
        r.deltas() == deltas@,
        r.headers() == delta_headers(deltas@) + info_headers(rest@.reverse()),
{
    let ghost all = rest@;
    let mut rest = rest;
    match rest.pop() {
        Some((header_info, block_info)) => {
            proof {
                assert(all.reverse() =~= seq![(header_info, block_info)] + rest@.reverse());
                assert(info_headers(all.reverse()) =~= seq![header_info.wire] + info_headers(
                    rest@.reverse(),
                ));
                assert(delta_headers(deltas@) + (seq![header_info.wire] + info_headers(
                    rest@.reverse(),
                )) =~= delta_headers(deltas@) + seq![header_info.wire] + info_headers(
                    rest@.reverse(),
                ));
            }
            DeltaRun::Next(AwaitBlock { header_info, block_info, rest, deltas })
        },
        None => {
            proof {
                assert(all.reverse() =~= Seq::empty());
                assert(delta_headers(deltas@) + info_headers(all.reverse()) =~= delta_headers(
                    deltas@,
                ));
            }
            DeltaRun::Done(GetBip300BlockDeltaResponse { deltas })
        },
    }
}

/// Starts a run through the blocks that the validator found. Where it does not
/// know the block that was asked for, the reply is empty.
pub fn start_run<H>(
    infos: Result<Option<Vec<(HeaderInfo<H>, BlockInfo)>>, ReadError>,
) -> (r: Result<DeltaRun<H>, RpcError>)
    ensures
        match infos {
            Err(e) => r == Err::<DeltaRun<H>, _>(RpcError::Internal { message: e.message }),
            Ok(None) => r matches Ok(run) && run.todo() == Seq::<
                (HeaderInfo<H>, BlockInfo),
            >::empty() && run.deltas() == Seq::<Bip300BlockDelta<H>>::empty(),
            Ok(Some(infos)) => r matches Ok(run) && run.todo() == infos@ && run.deltas() == Seq::<
                Bip300BlockDelta<H>,
            >::empty() && run.headers() == info_headers(infos@),
        },
{
    match infos {
        Err(e) => Err(internal_err(e)),
        Ok(None) => {
            let rest: Vec<(HeaderInfo<H>, BlockInfo)> = Vec::new();
            assert(rest@.reverse() =~= Seq::empty());
            Ok(proceed(rest, Vec::new()))
        },
        Ok(Some(infos)) => {
            let ghost all = infos@;
            let rest = reversed(infos);
            let deltas: Vec<Bip300BlockDelta<H>> = Vec::new();
            proof {
                assert(rest@.reverse() =~= all);
                assert(delta_headers(deltas@) + info_headers(all) =~= info_headers(all));
            }
            Ok(proceed(rest, deltas))
        },
    }
}

impl<H> AwaitBlock<H> {
    /// The block to read.
    pub fn wanted(&self) -> (r: BlockHash)
        ensures
            r == self.header_info.block_hash,
    {
        self.header_info.block_hash
    }

    /// Takes the block, if it is the one that was asked for.
    pub fn on_block(self, reply: Result<FetchedBlock, ReadError>) -> (r: Result<
        AwaitDiff<H>,
        RpcError,
    >)
        ensures
            match reply {
                Err(e) => r == Err::<AwaitDiff<H>, _>(RpcError::Internal { message: e.message }),
                Ok(block) => if block_hash_of(block.block.header) == self.header_info.block_hash@ {
                    r == Ok::<_, RpcError>(AwaitDiff { run: self, block })
                } else {
                    r matches Err(RpcError::WrongBlock { returned, requested }) && returned@
                        == block_hash_of(block.block.header) && requested
                        == self.header_info.block_hash
                },
            },
    {
        match reply {
            Err(e) => Err(internal_err(e)),
            Ok(block) => {
                let returned = block_hash(&block.block.header);
                if returned.same(&self.header_info.block_hash) {
                    Ok(AwaitDiff { run: self, block })
                } else {
                    Err(RpcError::WrongBlock { returned, requested: self.header_info.block_hash })
                }
            },
        }
    }
}

impl<H> AwaitDiff<H> {
    /// The block whose changes to read.
    pub fn wanted(&self) -> (r: BlockHash)
        ensures
            r == self.run.header_info.block_hash,
    {
        self.run.header_info.block_hash
    }

    /// Takes the changes that the block made.
    pub fn on_diff(self, reply: Result<BlockDiff, ReadError>) -> (r: Result<
        AwaitTreasury<H>,
        RpcError,
    >)
        ensures
            match reply {
                Err(e) => r == Err::<AwaitTreasury<H>, _>(
                    RpcError::Internal { message: e.message },
                ),
                Ok(block_diff) => r == Ok::<_, RpcError>(
                    AwaitTreasury { run: self.run, block: self.block, block_diff },
                ),
            },
    {
        match reply {
            Err(e) => Err(internal_err(e)),
            Ok(block_diff) => Ok(AwaitTreasury { run: self.run, block: self.block, block_diff }),
        }
    }
}

impl<H> AwaitTreasury<H> {
    /// The transactions of the block and of its events can be serialised.
    pub open spec fn encodable(&self) -> bool {
        self.block.block.encodable() && self.run.block_info.encodable()
    }

    /// Whether the transactions of the block and of its events can be serialised.
    pub fn is_encodable(&self) -> (r: bool)
        ensures
            r == self.encodable(),
    {
        self.block.block.is_encodable() && self.run.block_info.is_encodable()
    }

    /// The treasury outputs to read.
    pub fn wanted(&self) -> (r: Vec<TreasuryQuery>)
        ensures
            r@ == block_queries(self.run.block_info, self.block_diff),
    {
        treasury_queries(&self.run.block_info, &self.block_diff)
    }

    /// The delta of the block.
    pub open spec fn delta(&self, server: Server) -> Result<Bip300BlockDeltaView<H>, RpcError> {
        block_delta(
            server,
            self.run.header_info,
            self.block.block,
            self.block.readings,
            self.run.block_info,
            self.block_diff,
        )
    }

    /// The run goes on with the delta of the block behind those before it and with
    /// the next block, or ends with the refusal of that delta. The blocks of the run
    /// stay as they are.
    pub open spec fn goes_on(&self, server: Server, r: Result<DeltaRun<H>, RpcError>) -> bool {
        match r {
            Ok(run) => {
                &&& self.delta(server) matches Ok(delta)
                &&& views(run.deltas()) == views(self.run.deltas@).push(delta)
                &&& run.todo() == self.run.rest@.reverse()
                &&& run.headers() == self.run.headers()
            },
            Err(e) => self.delta(server) == Err::<Bip300BlockDeltaView<H>, _>(e),
        }
    }

    /// Takes the treasury outputs, adds the delta of the block to the reply and goes
    /// on to the next block.
    pub fn on_treasury(self, server: &Server) -> (r: Result<DeltaRun<H>, RpcError>)
        requires
            self.encodable(),
        ensures
            self.goes_on(*server, r),
    {
        broadcast use views_push;

        let AwaitBlock { header_info, block_info, rest, deltas } = self.run;
        let ghost wire = header_info.wire;
        let ghost before = deltas@;
        let mut deltas = deltas;
        match server.bip300_block_delta(
            header_info,
            &self.block.block,
            &self.block.readings,
            &block_info,
            &self.block_diff,
        ) {
            Ok(delta) => {
                deltas.push(delta);
                proof {
                    assert(delta@.header_info == wire);
                    assert(delta_headers(deltas@) =~= delta_headers(before) + seq![wire]);
                }
                Ok(proceed(rest, deltas))
            },
            Err(e) => Err(e),
        }
    }
}

} // verus!
