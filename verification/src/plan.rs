//! Which treasury outputs a block's transitions are read against.
use vstd::prelude::*;

use crate::order::{items, sort};
use crate::search::{try_flat_map_agrees, try_flat_map_first_failure};
use crate::treasury::{
    ctips_in_order, deposit_event, find_deposit, find_success, read_of, success_event, Server,
    TreasuryQuery,
};
use crate::types::{Block, BlockDiff, BlockInfo, BlockTx, Ctip, M6id, SidechainNumber};

verus! {

/// The treasury output before the one with this sequence number, if there is one.
pub open spec fn query_before(n: SidechainNumber, sequence_number: u64) -> Seq<TreasuryQuery> {
    if sequence_number == 0 {
        Seq::empty()
    } else {
        seq![
            TreasuryQuery {
                sidechain_number: n,
                sequence_number: (sequence_number - 1) as u64,
            },
        ]
    }
}

/// What a new treasury output of a deposit transaction is read against.
pub open spec fn deposit_queries(
    block_info: BlockInfo,
) -> spec_fn((SidechainNumber, Ctip)) -> Seq<TreasuryQuery> {
    |entry: (SidechainNumber, Ctip)|
        match deposit_event(block_info.events@, entry.0, entry.1.outpoint) {
            Some(deposit) => query_before(entry.0, deposit.sequence_number),
            None => Seq::empty(),
        }
}

/// What a withdrawal is read against.
pub open spec fn withdrawal_queries(
    block_info: BlockInfo,
    n: SidechainNumber,
    m6id: M6id,
) -> Seq<TreasuryQuery> {
    match success_event(block_info.events@, n, m6id) {
        Some((sequence_number, _)) => query_before(n, sequence_number),
        None => Seq::empty(),
    }
}

/// What one transaction is read against.
pub open spec fn tx_queries(block_info: BlockInfo) -> spec_fn(BlockTx) -> Seq<TreasuryQuery> {
    |tx: BlockTx|
        match tx {
            BlockTx::M5 { new_ctips } => ctips_in_order(new_ctips@).flat_map(
                deposit_queries(block_info),
            ),
            BlockTx::M6 { sidechain_number, removed_pending_withdrawal, .. } => withdrawal_queries(
                block_info,
                sidechain_number,
                removed_pending_withdrawal,
            ),
        }
}

/// What the transitions of a block are read against, in the order in which they
/// are made.
pub open spec fn block_queries(block_info: BlockInfo, block_diff: BlockDiff) -> Seq<TreasuryQuery> {
    block_diff.txs@.flat_map(tx_queries(block_info))
}

/// Appends the treasury output before the one with this sequence number.
fn push_query_before(out: &mut Vec<TreasuryQuery>, n: SidechainNumber, sequence_number: u64)
    ensures
        final(out)@ == old(out)@ + query_before(n, sequence_number),
{
    if sequence_number > 0 {
        out.push(
            TreasuryQuery { sidechain_number: n, sequence_number: sequence_number - 1 },
        );
    }
    assert(out@ =~= old(out)@ + query_before(n, sequence_number));
}

/// The treasury outputs that [`Server::treasury_transitions`] is going to ask for.
pub fn treasury_queries(block_info: &BlockInfo, block_diff: &BlockDiff) -> (r: Vec<TreasuryQuery>)
    ensures
        r@ == block_queries(*block_info, *block_diff),
{
    let ghost f = tx_queries(*block_info);
    let ghost txs = block_diff.txs@;
    let mut out: Vec<TreasuryQuery> = Vec::new();
    assert(txs.take(0).map_values(f) =~= Seq::empty());
    for i in 0..block_diff.txs.len()
        invariant
            f == tx_queries(*block_info),
            txs == block_diff.txs@,
            out@ == txs.take(i as int).flat_map(f),
    {
        let ghost before = out@;
        match &block_diff.txs[i] {
            BlockTx::M5 { new_ctips } => {
                let ctips = sort(new_ctips);
                let ghost g = deposit_queries(*block_info);
                proof {
                    assert(items(new_ctips@) =~= new_ctips@);
                    assert(items(ctips@) =~= ctips@);
                    assert(ctips@.take(0).map_values(g) =~= Seq::empty());
                    assert(before + ctips@.take(0).flat_map(g) =~= before);
                }
                for j in 0..ctips.len()
                    invariant
                        g == deposit_queries(*block_info),
                        out@ == before + ctips@.take(j as int).flat_map(g),
                {
                    let (n, ctip) = ctips[j];
                    let ghost so_far = out@;
                    if let Some(deposit) = find_deposit(&block_info.events, n, &ctip.outpoint) {
                        push_query_before(&mut out, n, deposit.sequence_number);
                    }
                    proof {
                        assert(out@ =~= so_far + g(ctips@[j as int]));
                        ctips@.lemma_flat_map_take_append(g, j as int);
                        assert(out@ =~= before + ctips@.take(j + 1).flat_map(g));
                    }
                }
                assert(ctips@.take(ctips@.len() as int) =~= ctips@);
            },
            BlockTx::M6 { sidechain_number, removed_pending_withdrawal, .. } => {
                if let Some((sequence_number, _)) = find_success(
                    block_info,
                    *sidechain_number,
                    removed_pending_withdrawal,
                ) {
                    push_query_before(&mut out, *sidechain_number, sequence_number);
                }
            },
        }
        proof {
            assert(out@ =~= before + f(txs[i as int]));
            txs.lemma_flat_map_take_append(f, i as int);
        }
    }
    assert(txs.take(txs.len() as int) =~= txs);
    out
}

proof fn lemma_flat_map_contains<T, U>(s: Seq<T>, f: spec_fn(T) -> Seq<U>, i: int, u: U)
    requires
        0 <= i < s.len(),
        f(s[i]).contains(u),
    ensures
        s.flat_map(f).contains(u),
    decreases s.len(),
{
    let p = s.drop_last();
    s.lemma_flat_map_take_append(f, s.len() - 1);
    assert(s.take(s.len() as int) =~= s);
    assert(s.take(s.len() - 1) =~= p);
    let head = p.flat_map(f);
    let tail = f(s.last());
    assert(s.flat_map(f) == head + tail);
    if i == s.len() - 1 {
        let k = choose|k: int| 0 <= k < tail.len() && tail[k] == u;
        assert((head + tail)[head.len() + k] == u);
    } else {
        assert(p[i] == s[i]);
        lemma_flat_map_contains(p, f, i, u);
        let k = choose|k: int| 0 <= k < head.len() && head[k] == u;
        assert((head + tail)[k] == u);
    }
}

/// The transitions of a block depend on the history of treasuries only through
/// the outputs that [`treasury_queries`] names: two servers that read the same of
/// those give the same reply.
pub proof fn planned_reads_suffice(
    a: Server,
    b: Server,
    height: u32,
    block: Block,
    block_info: BlockInfo,
    block_diff: BlockDiff,
)
    requires
        forall|q: TreasuryQuery|
            block_queries(block_info, block_diff).contains(q) ==> #[trigger] read_of(
                a.treasury@,
                q,
            ) == read_of(b.treasury@, q),
    ensures
        a.transitions(height, block, block_info, block_diff) == b.transitions(
            height,
            block,
            block_info,
            block_diff,
        ),
{
    let txs = block_diff.txs@;
    let plan = tx_queries(block_info);
    let f = a.tx_step(height, block, block_info);
    let g = b.tx_step(height, block, block_info);
    assert forall|i: int| #![trigger txs[i]] 0 <= i < txs.len() implies f(txs[i]) == g(txs[i]) by {
        assert forall|q: TreasuryQuery| plan(txs[i]).contains(q) implies #[trigger] read_of(
            a.treasury@,
            q,
        ) == read_of(b.treasury@, q) by {
            lemma_flat_map_contains(txs, plan, i, q);
        }
        match txs[i] {
            BlockTx::M5 { new_ctips } => {
                let ctips = ctips_in_order(new_ctips@);
                let h = a.deposit_step(height, block, block_info);
                let k = b.deposit_step(height, block, block_info);
                assert forall|j: int| #![trigger ctips[j]] 0 <= j < ctips.len() implies h(ctips[j])
                    == k(ctips[j]) by {
                    let (n, ctip) = ctips[j];
                    match deposit_event(block_info.events@, n, ctip.outpoint) {
                        Some(deposit) => {
                            if deposit.sequence_number > 0 {
                                let q = TreasuryQuery {
                                    sidechain_number: n,
                                    sequence_number: (deposit.sequence_number - 1) as u64,
                                };
                                assert(query_before(n, deposit.sequence_number)[0] == q);
                                lemma_flat_map_contains(ctips, deposit_queries(block_info), j, q);
                                assert(read_of(a.treasury@, q) == read_of(b.treasury@, q));
                            }
                        },
                        None => {},
                    }
                }
                try_flat_map_agrees(ctips, ctips, h, k);
            },
            BlockTx::M6 { sidechain_number, removed_pending_withdrawal, .. } => {
                match success_event(
                    block_info.events@,
                    sidechain_number,
                    removed_pending_withdrawal,
                ) {
                    Some((sequence_number, _)) => {
                        if sequence_number > 0 {
                            let q = TreasuryQuery {
                                sidechain_number,
                                sequence_number: (sequence_number - 1) as u64,
                            };
                            assert(query_before(sidechain_number, sequence_number)[0] == q);
                            assert(read_of(a.treasury@, q) == read_of(b.treasury@, q));
                        }
                    },
                    None => {},
                }
            },
        }
    }
    try_flat_map_agrees(txs, txs, f, g);
}

/// Where every output that [`treasury_queries`] names was read, no transition is
/// refused for an output that was not.
pub proof fn planned_reads_are_all(
    server: Server,
    height: u32,
    block: Block,
    block_info: BlockInfo,
    block_diff: BlockDiff,
)
    requires
        forall|q: TreasuryQuery|
            block_queries(block_info, block_diff).contains(q) ==> (#[trigger] read_of(
                server.treasury@,
                q,
            )) is Some,
    ensures
        server.transitions(height, block, block_info, block_diff) matches Err(e) ==> e
            !is TreasuryNotRead,
{
    let txs = block_diff.txs@;
    let plan = tx_queries(block_info);
    let f = server.tx_step(height, block, block_info);
    try_flat_map_first_failure(txs, f);
    assert forall|i: int| #![trigger txs[i]] 0 <= i < txs.len() implies (f(txs[i]) matches Err(
        e,
    ) ==> e !is TreasuryNotRead) by {
        assert forall|q: TreasuryQuery| plan(txs[i]).contains(q) implies (#[trigger] read_of(
            server.treasury@,
            q,
        )) is Some by {
            lemma_flat_map_contains(txs, plan, i, q);
        }
        match txs[i] {
            BlockTx::M5 { new_ctips } => {
                let ctips = ctips_in_order(new_ctips@);
                let g = server.deposit_step(height, block, block_info);
                try_flat_map_first_failure(ctips, g);
                assert forall|j: int| #![trigger ctips[j]] 0 <= j < ctips.len() implies (g(
                    ctips[j],
                ) matches Err(e) ==> e !is TreasuryNotRead) by {
                    let (n, ctip) = ctips[j];
                    if let Some(deposit) = deposit_event(block_info.events@, n, ctip.outpoint) {
                        if deposit.sequence_number > 0 {
                            let q = TreasuryQuery {
                                sidechain_number: n,
                                sequence_number: (deposit.sequence_number - 1) as u64,
                            };
                            assert(query_before(n, deposit.sequence_number)[0] == q);
                            lemma_flat_map_contains(ctips, deposit_queries(block_info), j, q);
                            assert(read_of(server.treasury@, q) is Some);
                        }
                    }
                }
            },
            BlockTx::M6 { sidechain_number, removed_pending_withdrawal, .. } => {
                if let Some((sequence_number, _)) = success_event(
                    block_info.events@,
                    sidechain_number,
                    removed_pending_withdrawal,
                ) {
                    if sequence_number > 0 {
                        let q = TreasuryQuery {
                            sidechain_number,
                            sequence_number: (sequence_number - 1) as u64,
                        };
                        assert(query_before(sidechain_number, sequence_number)[0] == q);
                        assert(read_of(server.treasury@, q) is Some);
                    }
                }
            },
        }
    }
}

} // verus!
