//! What transitions of treasuries say, in terms of what was read and recorded.
use vstd::prelude::*;

use crate::chain::{total, transaction_bytes, txid_of};
use crate::error::{ReadError, RpcError};
use crate::order::{by_key, lex_le, stable_sort_is_stable, stable_sort_sorts};
use crate::plan::{block_queries, deposit_queries, query_before, tx_queries};
use crate::search::{
    find_map, find_map_is_first, try_flat_map, try_flat_map_all, try_flat_map_first_failure,
    try_flat_map_one_each,
};
use crate::spelling::{
    bytes_le, consensus_hash_spells, displayed_hash_spells, hashes_are_ordered_by_bytes, hex_spells,
    spelling_is_unique, spells, transaction_spells,
};
use crate::treasury::{
    answer_to, ctips_in_order, deposit_event, deposit_in, failed_entries, failed_in_order, hash_key,
    historical_treasury_ctip_view, identified_by, payouts, read_of, success_event, success_in,
    transaction_in, treasury_ctip_view, Server, TreasuryQuery,
};
use crate::types::{
    lookup, Block, BlockDiff, BlockEvent, BlockInfo, BlockTx, Ctip, Deposit, Hash256, M6id,
    OutPoint, PendingM6idInfo, SidechainNumber, Transaction, TreasuryUtxo,
    WithdrawalBundleEventKind,
};
use crate::wire::{TreasuryCtipView, TreasuryTransitionView};

verus! {

/// `written` names the output at `outpoint` and what it holds.
pub open spec fn names(written: TreasuryCtipView, outpoint: OutPoint, value: u64) -> bool {
    &&& spells(written.txid, outpoint.txid.0@.reverse())
    &&& written.vout == outpoint.vout
    &&& written.value_sats == value
}

/// A treasury output goes out under its own place and with its own value.
pub proof fn ctips_are_named(ctip: Ctip, utxo: TreasuryUtxo)
    ensures
        names(treasury_ctip_view(ctip), ctip.outpoint, ctip.value),
        names(historical_treasury_ctip_view(utxo), utxo.outpoint, utxo.total_value),
{
    displayed_hash_spells(ctip.outpoint.txid);
    displayed_hash_spells(utxo.outpoint.txid);
}

/// What was read of a treasury output is the first answer to the question for that
/// sidechain and that sequence number.
pub proof fn treasury_read_is_the_one_asked_for(
    server: Server,
    sidechain_number: SidechainNumber,
    sequence_number: u64,
)
    ensures
        ({
            let reads = server.treasury@;
            let asked = |i: int|
                reads[i].query.sidechain_number == sidechain_number
                    && reads[i].query.sequence_number == sequence_number;
            match server.treasury_utxo(sidechain_number, sequence_number) {
                Ok(utxo) => exists|i: int|
                    #![trigger reads[i]]
                    0 <= i < reads.len() && asked(i) && reads[i].reply == Ok::<_, ReadError>(
                        utxo,
                    ) && (forall|j: int| #![trigger reads[j]] 0 <= j < i ==> !asked(j)),
                Err(e) => ((forall|i: int|
                    #![trigger reads[i]]
                    0 <= i < reads.len() ==> !asked(i)) && e == (RpcError::TreasuryNotRead {
                    sidechain_number,
                    sequence_number,
                })) || (exists|i: int|
                    #![trigger reads[i]]
                    0 <= i < reads.len() && asked(i) && (reads[i].reply matches Err(failure) && e
                        == (RpcError::Internal { message: failure.message })) && (forall|j: int|
                        #![trigger reads[j]]
                        0 <= j < i ==> !asked(j))),
            }
        }),
{
    let query = TreasuryQuery { sidechain_number, sequence_number };
    find_map_is_first(server.treasury@, answer_to(query));
    assert(read_of(server.treasury@, query) == find_map(
        server.treasury@,
        answer_to(query),
    ));
}

/// The treasury output before another is the one that was read for the sequence
/// number before, and there is none before the first.
pub proof fn previous_ctip_is_the_one_before(
    server: Server,
    sidechain_number: SidechainNumber,
    sequence_number: u64,
)
    ensures
        sequence_number == 0 ==> server.previous_ctip(sidechain_number, sequence_number) == Ok::<
            Option<TreasuryCtipView>,
            RpcError,
        >(None),
        sequence_number > 0 ==> match server.treasury_utxo(
            sidechain_number,
            (sequence_number - 1) as u64,
        ) {
            Ok(utxo) => server.previous_ctip(sidechain_number, sequence_number) matches Ok(
                Some(previous),
            ) && names(previous, utxo.outpoint, utxo.total_value),
            Err(e) => server.previous_ctip(sidechain_number, sequence_number) == Err::<
                Option<TreasuryCtipView>,
                _,
            >(e),
        },
{
    if sequence_number > 0 {
        if let Ok(utxo) = server.treasury_utxo(sidechain_number, (sequence_number - 1) as u64) {
            displayed_hash_spells(utxo.outpoint.txid);
        }
    }
}

/// An event holds deposit `d` into sidechain `n`, and it created `outpoint`.
pub open spec fn holds_deposit(
    event: BlockEvent,
    n: SidechainNumber,
    outpoint: OutPoint,
    d: Deposit,
) -> bool {
    event matches BlockEvent::Deposits(deposits) && lookup(deposits@, n) == Some(d) && d.outpoint
        == outpoint
}

/// The deposit of a treasury output is the first that the block's events hold of its
/// sidechain and its place.
pub proof fn deposit_event_is_the_first(
    events: Seq<BlockEvent>,
    n: SidechainNumber,
    outpoint: OutPoint,
)
    ensures
        match deposit_event(events, n, outpoint) {
            Some(d) => exists|i: int|
                #![trigger events[i]]
                0 <= i < events.len() && holds_deposit(events[i], n, outpoint, d) && (forall|
                    j: int,
                    x: Deposit,
                |
                    #![trigger holds_deposit(events[j], n, outpoint, x)]
                    0 <= j < i ==> !holds_deposit(events[j], n, outpoint, x)),
            None => forall|j: int, x: Deposit|
                #![trigger holds_deposit(events[j], n, outpoint, x)]
                0 <= j < events.len() ==> !holds_deposit(events[j], n, outpoint, x),
        },
{
    let f = deposit_in(n, outpoint);
    find_map_is_first(events, f);
    assert forall|j: int, x: Deposit|
        #![trigger holds_deposit(events[j], n, outpoint, x)]
        0 <= j < events.len() && f(events[j]) is None implies !holds_deposit(
        events[j],
        n,
        outpoint,
        x,
    ) by {
    }
    if let Some(d) = deposit_event(events, n, outpoint) {
        let i = choose|i: int|
            #![trigger events[i]]
            0 <= i < events.len() && f(events[i]) == Some(d) && (forall|j: int|
                #![trigger events[j]]
                0 <= j < i ==> f(events[j]) is None);
        assert(holds_deposit(events[i], n, outpoint, d));
        assert forall|j: int, x: Deposit|
            #![trigger holds_deposit(events[j], n, outpoint, x)]
            0 <= j < i implies !holds_deposit(events[j], n, outpoint, x) by {
            assert(f(events[j]) is None);
        }
    } else {
        assert forall|j: int, x: Deposit|
            #![trigger holds_deposit(events[j], n, outpoint, x)]
            0 <= j < events.len() implies !holds_deposit(events[j], n, outpoint, x) by {
            assert(f(events[j]) is None);
        }
    }
}

/// The transaction of a treasury output is the first of the block that has its
/// identifier.
pub proof fn deposit_transaction_is_the_first(txs: Seq<Transaction>, txid: Hash256)
    ensures
        match transaction_in(txs, txid) {
            Some(tx) => exists|i: int|
                #![trigger txs[i]]
                0 <= i < txs.len() && txs[i] == tx && txid_of(tx@) == txid.0@ && (forall|j: int|
                    #![trigger txs[j]]
                    0 <= j < i ==> txid_of(txs[j]@) != txid.0@),
            None => forall|j: int|
                #![trigger txs[j]]
                0 <= j < txs.len() ==> txid_of(txs[j]@) != txid.0@,
        },
{
    find_map_is_first(txs, identified_by(txid));
}

/// An event says that bundle `m6id` of sidechain `n` succeeded, with sequence number
/// `s` and transaction `tx`.
pub open spec fn holds_success(
    event: BlockEvent,
    n: SidechainNumber,
    m6id: M6id,
    s: u64,
    tx: Transaction,
) -> bool {
    event matches BlockEvent::WithdrawalBundle(bundle) && bundle.sidechain_id == n && bundle.m6id
        == m6id && bundle.kind == (WithdrawalBundleEventKind::Succeeded {
        sequence_number: s,
        transaction: tx,
    })
}

/// The success of a bundle is the first that the block's events hold of its sidechain
/// and identifier.
pub proof fn success_event_is_the_first(events: Seq<BlockEvent>, n: SidechainNumber, m6id: M6id)
    ensures
        match success_event(events, n, m6id) {
            Some((s, tx)) => exists|i: int|
                #![trigger events[i]]
                0 <= i < events.len() && holds_success(events[i], n, m6id, s, tx) && (forall|
                    j: int,
                    t: u64,
                    x: Transaction,
                |
                    #![trigger holds_success(events[j], n, m6id, t, x)]
                    0 <= j < i ==> !holds_success(events[j], n, m6id, t, x)),
            None => forall|j: int, t: u64, x: Transaction|
                #![trigger holds_success(events[j], n, m6id, t, x)]
                0 <= j < events.len() ==> !holds_success(events[j], n, m6id, t, x),
        },
{
    let f = success_in(n, m6id);
    find_map_is_first(events, f);
    if let Some((s, tx)) = success_event(events, n, m6id) {
        let i = choose|i: int|
            #![trigger events[i]]
            0 <= i < events.len() && f(events[i]) == Some((s, tx)) && (forall|j: int|
                #![trigger events[j]]
                0 <= j < i ==> f(events[j]) is None);
        assert(holds_success(events[i], n, m6id, s, tx));
        assert forall|j: int, t: u64, x: Transaction|
            #![trigger holds_success(events[j], n, m6id, t, x)]
            0 <= j < i implies !holds_success(events[j], n, m6id, t, x) by {
            assert(f(events[j]) is None);
        }
    } else {
        assert forall|j: int, t: u64, x: Transaction|
            #![trigger holds_success(events[j], n, m6id, t, x)]
            0 <= j < events.len() implies !holds_success(events[j], n, m6id, t, x) by {
            assert(f(events[j]) is None);
        }
    }
}

/// The payouts of a withdrawal are the values of its outputs behind the first.
pub proof fn payouts_are_the_other_outputs(tx: Transaction)
    ensures
        tx.output@.len() == 0 ==> payouts(tx).len() == 0,
        tx.output@.len() > 0 ==> payouts(tx).len() == tx.output@.len() - 1,
        forall|i: int|
            #![trigger payouts(tx)[i]]
            0 <= i < payouts(tx).len() ==> payouts(tx)[i] == tx.output@[i + 1].value,
{
}

/// `t` tells that bundle `m6id` of sidechain `n` took `previous` as the treasury and
/// left `ctip`, in transaction `tx` and at sequence number `s`.
pub open spec fn tells_withdrawal(
    t: TreasuryTransitionView,
    height: u32,
    n: SidechainNumber,
    ctip: Ctip,
    m6id: M6id,
    pending: PendingM6idInfo,
    s: u64,
    tx: Transaction,
    previous: TreasuryUtxo,
) -> bool {
    &&& t.kind is WithdrawalSucceeded
    &&& t.sidechain_number == n.0
    &&& t.previous_ctip matches Some(before)
    &&& names(before, previous.outpoint, previous.total_value)
    &&& t.new_ctip matches Some(after)
    &&& names(after, ctip.outpoint, ctip.value)
    &&& t.sequence_number == Some(s)
    &&& t.delta_sats matches Some(delta)
    &&& delta == previous.total_value - ctip.value
    &&& t.payout_sats matches Some(payout)
    &&& payout == total(payouts(tx))
    &&& t.fee_sats matches Some(fee)
    &&& fee == previous.total_value - ctip.value - payout
    &&& t.m6id matches Some(id)
    &&& spells(id, m6id.0@)
    &&& t.sidechain_address is None
    &&& t.transaction matches Some(raw)
    &&& spells(raw, transaction_bytes(tx@))
    &&& t.proposal_height == Some(pending.proposal_height)
    &&& t.terminal_height == Some(height)
}

/// `t` tells that deposit `d` into sidechain `n` made `ctip` the treasury behind
/// `previous`, in transaction `tx`.
pub open spec fn tells_deposit(
    t: TreasuryTransitionView,
    height: u32,
    n: SidechainNumber,
    ctip: Ctip,
    d: Deposit,
    tx: Transaction,
    previous: Option<TreasuryUtxo>,
) -> bool {
    &&& t.kind is Deposit
    &&& t.sidechain_number == n.0
    &&& match previous {
        Some(utxo) => t.previous_ctip matches Some(before) && names(
            before,
            utxo.outpoint,
            utxo.total_value,
        ),
        None => t.previous_ctip is None,
    }
    &&& t.new_ctip matches Some(after)
    &&& names(after, ctip.outpoint, ctip.value)
    &&& t.sequence_number == Some(d.sequence_number)
    &&& t.delta_sats == Some(d.value)
    &&& t.payout_sats is None
    &&& t.fee_sats is None
    &&& t.m6id is None
    &&& t.sidechain_address matches Some(address)
    &&& spells(address, d.address@)
    &&& t.transaction matches Some(raw)
    &&& spells(raw, transaction_bytes(tx@))
    &&& t.proposal_height is None
    &&& t.terminal_height == Some(height)
}

/// `t` tells that bundle `m6id` of sidechain `n` failed.
pub open spec fn tells_failure(
    t: TreasuryTransitionView,
    height: u32,
    n: SidechainNumber,
    m6id: M6id,
    pending: PendingM6idInfo,
) -> bool {
    &&& t.kind is WithdrawalFailed
    &&& t.sidechain_number == n.0
    &&& t.previous_ctip is None
    &&& t.new_ctip is None
    &&& t.sequence_number is None
    &&& t.delta_sats is None
    &&& t.payout_sats is None
    &&& t.fee_sats is None
    &&& t.m6id matches Some(id)
    &&& spells(id, m6id.0@)
    &&& t.sidechain_address is None
    &&& t.transaction is None
    &&& t.proposal_height == Some(pending.proposal_height)
    &&& t.terminal_height == Some(height)
}

proof fn lemma_no_failures(failed: Seq<(SidechainNumber, Vec<(M6id, PendingM6idInfo)>)>)
    requires
        failed.len() == 0,
    ensures
        failed_entries(failed).len() == 0,
        failed_in_order(failed).len() == 0,
{
    assert(failed.map_values(
        |entry: (SidechainNumber, Vec<(M6id, PendingM6idInfo)>)|
            entry.1@.map_values(|bundle: (M6id, PendingM6idInfo)| (entry.0, bundle.0, bundle.1)),
    ) =~= Seq::empty());
}

/// A block whose changes touch no treasury has no transitions.
pub proof fn nothing_has_no_transitions(
    server: Server,
    height: u32,
    block: Block,
    block_info: BlockInfo,
    block_diff: BlockDiff,
)
    requires
        block_diff.txs@.len() == 0,
        block_diff.coinbase.failed_m6ids@.len() == 0,
    ensures
        server.transitions(height, block, block_info, block_diff) matches Ok(ts) && ts.len() == 0,
{
    lemma_no_failures(block_diff.coinbase.failed_m6ids@);
}

/// A withdrawal behind other transactions adds one transition, which tells of it, or
/// is refused for the first of these reasons: no event of its success, sequence number
/// zero, a treasury that could not be read, amounts that do not fit, outputs above
/// what the treasury held.
pub proof fn a_withdrawal_is_told(
    server: Server,
    height: u32,
    block: Block,
    block_info: BlockInfo,
    a: BlockDiff,
    b: BlockDiff,
    n: SidechainNumber,
    ctip: Ctip,
    m6id: M6id,
    pending: PendingM6idInfo,
)
    requires
        a.coinbase.failed_m6ids@.len() == 0,
        b.coinbase.failed_m6ids@.len() == 0,
        b.txs@ == a.txs@.push(
            BlockTx::M6 {
                sidechain_number: n,
                new_ctip: ctip,
                removed_pending_withdrawal: m6id,
                removed_pending_withdrawal_info: pending,
            },
        ),
    ensures
        ({
            let before = server.transitions(height, block, block_info, a);
            let after = server.transitions(height, block, block_info, b);
            let refused = |e: RpcError| after == Err::<Seq<TreasuryTransitionView>, _>(e);
            match before {
                Err(e) => refused(e),
                Ok(told) => match success_event(block_info.events@, n, m6id) {
                    None => refused(RpcError::WithdrawalWithoutEvent { sidechain_number: n }),
                    Some((s, tx)) => if s == 0 {
                        refused(RpcError::WithdrawalAtSequenceZero)
                    } else {
                        match server.treasury_utxo(n, (s - 1) as u64) {
                            Err(e) => refused(e),
                            Ok(previous) => if total(payouts(tx)) > u64::MAX {
                                refused(RpcError::PayoutOverflow)
                            } else if ctip.value + total(payouts(tx)) > u64::MAX {
                                refused(RpcError::OutputOverflow)
                            } else if ctip.value + total(payouts(tx)) > previous.total_value {
                                refused(RpcError::OutputExceedsTreasury)
                            } else {
                                &&& after matches Ok(ts)
                                &&& ts.len() == told.len() + 1
                                &&& ts.drop_last() == told
                                &&& tells_withdrawal(
                                    ts.last(),
                                    height,
                                    n,
                                    ctip,
                                    m6id,
                                    pending,
                                    s,
                                    tx,
                                    previous,
                                )
                            },
                        }
                    },
                },
            }
        }),
{
    let f = server.tx_step(height, block, block_info);
    lemma_no_failures(a.coinbase.failed_m6ids@);
    lemma_no_failures(b.coinbase.failed_m6ids@);
    assert(b.txs@.drop_last() =~= a.txs@);
    displayed_hash_spells(ctip.outpoint.txid);
    consensus_hash_spells(m6id);
    lemma_bare(server, height, block, block_info, a);
    lemma_bare(server, height, block, block_info, b);
    if let Some((s, tx)) = success_event(block_info.events@, n, m6id) {
        transaction_spells(tx@);
        if s > 0 {
            if let Ok(previous) = server.treasury_utxo(n, (s - 1) as u64) {
                displayed_hash_spells(previous.outpoint.txid);
            }
        }
    }
    if let Ok(ts) = server.transitions(height, block, block_info, b) {
        let told = server.transitions(height, block, block_info, a)->Ok_0;
        assert(ts.drop_last() =~= told);
    }
}

proof fn lemma_bare(
    server: Server,
    height: u32,
    block: Block,
    block_info: BlockInfo,
    d: BlockDiff,
)
    requires
        d.coinbase.failed_m6ids@.len() == 0,
    ensures
        server.transitions(height, block, block_info, d) == try_flat_map(
            d.txs@,
            server.tx_step(height, block, block_info),
        ),
{
    lemma_no_failures(d.coinbase.failed_m6ids@);
    if let Ok(moved) = try_flat_map(d.txs@, server.tx_step(height, block, block_info)) {
        let all = server.transitions(height, block, block_info, d)->Ok_0;
        assert(all =~= moved);
    }
}

/// Why a new treasury output is refused, if it is: the first of no event of its
/// deposit, no transaction of it in the block, and a treasury that could not be read.
pub open spec fn deposit_refusal(
    server: Server,
    block: Block,
    block_info: BlockInfo,
    n: SidechainNumber,
    ctip: Ctip,
) -> Option<RpcError> {
    match deposit_event(block_info.events@, n, ctip.outpoint) {
        None => Some(RpcError::DepositWithoutEvent { sidechain_number: n }),
        Some(d) => if transaction_in(block.txdata@, ctip.outpoint.txid) is None {
            Some(RpcError::DepositOutsideBlock { txid: ctip.outpoint.txid })
        } else if d.sequence_number == 0 {
            None
        } else {
            match server.treasury_utxo(n, (d.sequence_number - 1) as u64) {
                Ok(_) => None,
                Err(e) => Some(e),
            }
        },
    }
}

/// The treasury before a deposit, where there is one.
pub open spec fn treasury_before(
    server: Server,
    n: SidechainNumber,
    d: Deposit,
) -> Option<TreasuryUtxo> {
    if d.sequence_number == 0 {
        None
    } else {
        Some(server.treasury_utxo(n, (d.sequence_number - 1) as u64)->Ok_0)
    }
}

proof fn lemma_deposit(
    server: Server,
    height: u32,
    block: Block,
    block_info: BlockInfo,
    n: SidechainNumber,
    ctip: Ctip,
)
    ensures
        match server.deposit_transition(height, block, block_info, n, ctip) {
            Ok(t) => {
                &&& deposit_refusal(server, block, block_info, n, ctip) is None
                &&& deposit_event(block_info.events@, n, ctip.outpoint) matches Some(d)
                &&& transaction_in(block.txdata@, ctip.outpoint.txid) matches Some(tx)
                &&& tells_deposit(t, height, n, ctip, d, tx, treasury_before(server, n, d))
            },
            Err(e) => deposit_refusal(server, block, block_info, n, ctip) == Some(e),
        },
{
    displayed_hash_spells(ctip.outpoint.txid);
    if let Some(d) = deposit_event(block_info.events@, n, ctip.outpoint) {
        hex_spells(d.address@);
        previous_ctip_is_the_one_before(server, n, d.sequence_number);
        if let Some(tx) = transaction_in(block.txdata@, ctip.outpoint.txid) {
            transaction_spells(tx@);
        }
    }
}

/// The new treasury outputs of a deposit transaction stand in the order of their
/// sidechains, and none is left out or added.
pub proof fn ctips_stand_by_sidechain(ctips: Seq<(SidechainNumber, Ctip)>)
    ensures
        ctips_in_order(ctips).to_multiset() == ctips.to_multiset(),
        ctips_in_order(ctips).len() == ctips.len(),
        forall|i: int, j: int|
            #![trigger ctips_in_order(ctips)[i], ctips_in_order(ctips)[j]]
            0 <= i < j < ctips.len() ==> ctips_in_order(ctips)[i].0.0 <= ctips_in_order(
                ctips,
            )[j].0.0,
{
    let key = by_key::<(SidechainNumber, Ctip)>();
    stable_sort_sorts(ctips, key);
    let sorted = ctips_in_order(ctips);
    assert forall|i: int, j: int|
        #![trigger sorted[i], sorted[j]]
        0 <= i < j < ctips.len() implies sorted[i].0.0 <= sorted[j].0.0 by {
        assert(lex_le(key(sorted[i]), key(sorted[j])));
    }
}

/// A deposit transaction behind other transactions adds one transition for each new
/// treasury output, which tells of it, or is refused for the first output that is.
pub proof fn deposits_are_told(
    server: Server,
    height: u32,
    block: Block,
    block_info: BlockInfo,
    a: BlockDiff,
    b: BlockDiff,
    new_ctips: Vec<(SidechainNumber, Ctip)>,
)
    requires
        a.coinbase.failed_m6ids@.len() == 0,
        b.coinbase.failed_m6ids@.len() == 0,
        b.txs@ == a.txs@.push(BlockTx::M5 { new_ctips }),
    ensures
        ({
            let before = server.transitions(height, block, block_info, a);
            let after = server.transitions(height, block, block_info, b);
            let ctips = ctips_in_order(new_ctips@);
            let refusal = |i: int|
                deposit_refusal(server, block, block_info, ctips[i].0, ctips[i].1);
            match (before, after) {
                (Err(e), _) => after == Err::<Seq<TreasuryTransitionView>, _>(e),
                (Ok(told), Err(e)) => exists|i: int|
                    #![trigger ctips[i]]
                    0 <= i < ctips.len() && refusal(i) == Some(e) && (forall|j: int|
                        #![trigger ctips[j]]
                        0 <= j < i ==> refusal(j) is None),
                (Ok(told), Ok(ts)) => {
                    &&& ts.len() == told.len() + new_ctips@.len()
                    &&& ts.take(told.len() as int) == told
                    &&& forall|i: int|
                        #![trigger ctips[i]]
                        0 <= i < ctips.len() ==> {
                            &&& refusal(i) is None
                            &&& deposit_event(
                                block_info.events@,
                                ctips[i].0,
                                ctips[i].1.outpoint,
                            ) matches Some(d)
                            &&& transaction_in(
                                block.txdata@,
                                ctips[i].1.outpoint.txid,
                            ) matches Some(tx)
                            &&& tells_deposit(
                                ts[told.len() + i],
                                height,
                                ctips[i].0,
                                ctips[i].1,
                                d,
                                tx,
                                treasury_before(server, ctips[i].0, d),
                            )
                        }
                },
            }
        }),
{
    let ctips = ctips_in_order(new_ctips@);
    let g = server.deposit_step(height, block, block_info);
    let f = server.tx_step(height, block, block_info);
    lemma_bare(server, height, block, block_info, a);
    lemma_bare(server, height, block, block_info, b);
    ctips_stand_by_sidechain(new_ctips@);
    assert(b.txs@.drop_last() =~= a.txs@);
    assert(b.txs@.last() == BlockTx::M5 { new_ctips });
    assert(f(BlockTx::M5 { new_ctips }) == try_flat_map(ctips, g));
    assert forall|i: int| #![trigger ctips[i]] 0 <= i < ctips.len() implies match g(ctips[i]) {
        Ok(one) => {
            &&& one.len() == 1
            &&& deposit_refusal(server, block, block_info, ctips[i].0, ctips[i].1) is None
            &&& deposit_event(block_info.events@, ctips[i].0, ctips[i].1.outpoint) matches Some(d)
            &&& transaction_in(block.txdata@, ctips[i].1.outpoint.txid) matches Some(tx)
            &&& tells_deposit(
                one[0],
                height,
                ctips[i].0,
                ctips[i].1,
                d,
                tx,
                treasury_before(server, ctips[i].0, d),
            )
        },
        Err(e) => deposit_refusal(server, block, block_info, ctips[i].0, ctips[i].1) == Some(e),
    } by {
        lemma_deposit(server, height, block, block_info, ctips[i].0, ctips[i].1);
    }
    try_flat_map_first_failure(ctips, g);
    if let Ok(told) = server.transitions(height, block, block_info, a) {
        if let Ok(added) = try_flat_map(ctips, g) {
            try_flat_map_one_each(ctips, g);
            let ts = server.transitions(height, block, block_info, b)->Ok_0;
            assert(ts == told + added);
            assert(ts.take(told.len() as int) =~= told);
            assert forall|i: int| #![trigger ctips[i]] 0 <= i < ctips.len() implies ts[told.len()
                + i] == g(ctips[i])->Ok_0[0] by {
            }
        } else {
            let e = try_flat_map(ctips, g)->Err_0;
            let i = choose|i: int|
                #![trigger ctips[i]]
                0 <= i < ctips.len() && g(ctips[i]) == Err::<Seq<TreasuryTransitionView>, _>(e) && (
                forall|j: int| #![trigger ctips[j]] 0 <= j < i ==> g(ctips[j]) is Ok);
            assert(deposit_refusal(server, block, block_info, ctips[i].0, ctips[i].1) == Some(e));
        }
    }
}

/// Bundles that failed do not change what is told of transactions, nor whether it is
/// refused. Behind it they add one transition each, which tells of the bundle, in the
/// order of sidechains and then of identifiers.
pub proof fn failures_are_told(
    server: Server,
    height: u32,
    block: Block,
    block_info: BlockInfo,
    a: BlockDiff,
    b: BlockDiff,
)
    requires
        a.coinbase.failed_m6ids@.len() == 0,
        b.txs@ == a.txs@,
    ensures
        ({
            let before = server.transitions(height, block, block_info, a);
            let after = server.transitions(height, block, block_info, b);
            let failed = failed_in_order(b.coinbase.failed_m6ids@);
            &&& failed.to_multiset() == failed_entries(b.coinbase.failed_m6ids@).to_multiset()
            &&& forall|i: int, j: int|
                #![trigger failed[i], failed[j]]
                0 <= i < j < failed.len() ==> failed[i].0.0 < failed[j].0.0 || (failed[i].0
                    == failed[j].0 && bytes_le(failed[i].1.0@, failed[j].1.0@))
            &&& match before {
                Err(e) => after == Err::<Seq<TreasuryTransitionView>, _>(e),
                Ok(told) => {
                    &&& after matches Ok(ts)
                    &&& ts.len() == told.len() + failed.len()
                    &&& ts.take(told.len() as int) == told
                    &&& forall|i: int|
                        #![trigger failed[i]]
                        0 <= i < failed.len() ==> tells_failure(
                            ts[told.len() + i],
                            height,
                            failed[i].0,
                            failed[i].1,
                            failed[i].2,
                        )
                },
            }
        }),
{
    let key = by_key::<(SidechainNumber, M6id, PendingM6idInfo)>();
    let failed = failed_in_order(b.coinbase.failed_m6ids@);
    stable_sort_sorts(failed_entries(b.coinbase.failed_m6ids@), key);
    lemma_bare(server, height, block, block_info, a);
    assert forall|i: int, j: int|
        #![trigger failed[i], failed[j]]
        0 <= i < j < failed.len() implies failed[i].0.0 < failed[j].0.0 || (failed[i].0
        == failed[j].0 && bytes_le(failed[i].1.0@, failed[j].1.0@)) by {
        let p = key(failed[i]);
        let q = key(failed[j]);
        assert(lex_le(p, q));
        assert(p[0] == failed[i].0.0 as int);
        assert(q[0] == failed[j].0.0 as int);
        assert(p.drop_first() =~= hash_key(failed[i].1));
        assert(q.drop_first() =~= hash_key(failed[j].1));
        hashes_are_ordered_by_bytes(failed[i].1, failed[j].1);
    }
    if let Ok(told) = server.transitions(height, block, block_info, a) {
        let ts = server.transitions(height, block, block_info, b)->Ok_0;
        assert(ts.take(told.len() as int) =~= told);
        assert forall|i: int| #![trigger failed[i]] 0 <= i < failed.len() implies tells_failure(
            ts[told.len() + i],
            height,
            failed[i].0,
            failed[i].1,
            failed[i].2,
        ) by {
            consensus_hash_spells(failed[i].1);
        }
    }
}

/// The bundles that failed are those of each sidechain with that sidechain, each once.
pub proof fn failed_bundles_keep_their_sidechain(
    failed: Seq<(SidechainNumber, Vec<(M6id, PendingM6idInfo)>)>,
    n: SidechainNumber,
    bundles: Vec<(M6id, PendingM6idInfo)>,
)
    ensures
        failed.len() == 0 ==> failed_entries(failed).len() == 0,
        failed_entries(failed.push((n, bundles))).len() == failed_entries(failed).len()
            + bundles@.len(),
        failed_entries(failed.push((n, bundles))).take(failed_entries(failed).len() as int)
            == failed_entries(failed),
        forall|j: int|
            #![trigger bundles@[j]]
            0 <= j < bundles@.len() ==> failed_entries(failed.push((n, bundles)))[failed_entries(
                failed,
            ).len() + j] == (n, bundles@[j].0, bundles@[j].1),
{
    let f = |entry: (SidechainNumber, Vec<(M6id, PendingM6idInfo)>)|
        entry.1@.map_values(|bundle: (M6id, PendingM6idInfo)| (entry.0, bundle.0, bundle.1));
    if failed.len() == 0 {
        lemma_no_failures(failed);
    }
    failed.lemma_flat_map_push(f, (n, bundles));
    let all = failed_entries(failed.push((n, bundles)));
    assert(all =~= failed_entries(failed) + f((n, bundles)));
    assert(all.take(failed_entries(failed).len() as int) =~= failed_entries(failed));
}

/// The treasury before transition `t`, where its sequence number says there is one,
/// goes out as the output that was read for that sidechain and the sequence number
/// before.
pub open spec fn follows_the_read(server: Server, t: TreasuryTransitionView) -> bool {
    t.sequence_number matches Some(s) ==> s > 0 ==> {
        &&& t.sidechain_number <= u8::MAX
        &&& server.treasury_utxo(
            SidechainNumber(t.sidechain_number as u8),
            (s - 1) as u64,
        ) matches Ok(utxo)
        &&& t.previous_ctip matches Some(before)
        &&& names(before, utxo.outpoint, utxo.total_value)
    }
}

/// Every deposit and every withdrawal of a block goes out behind the treasury that was
/// read for it.
pub proof fn transitions_follow_the_reads(
    server: Server,
    height: u32,
    block: Block,
    block_info: BlockInfo,
    block_diff: BlockDiff,
)
    ensures
        server.transitions(height, block, block_info, block_diff) matches Ok(ts) ==> forall|k: int|
            #![trigger ts[k]]
            0 <= k < ts.len() ==> follows_the_read(server, ts[k]),
{
    let txs = block_diff.txs@;
    let f = server.tx_step(height, block, block_info);
    let g = server.deposit_step(height, block, block_info);
    let p = |t: TreasuryTransitionView| follows_the_read(server, t);
    if try_flat_map(txs, f) is Ok {
        assert forall|i: int, k: int|
            #![trigger f(txs[i])->Ok_0[k]]
            0 <= i < txs.len() && f(txs[i]) is Ok && 0 <= k < f(txs[i])->Ok_0.len() implies p(
            f(txs[i])->Ok_0[k],
        ) by {
            match txs[i] {
                BlockTx::M5 { new_ctips } => {
                    let ctips = ctips_in_order(new_ctips@);
                    assert forall|j: int, l: int|
                        #![trigger g(ctips[j])->Ok_0[l]]
                        0 <= j < ctips.len() && g(ctips[j]) is Ok && 0 <= l < g(
                            ctips[j],
                        )->Ok_0.len() implies p(g(ctips[j])->Ok_0[l]) by {
                        lemma_deposit(server, height, block, block_info, ctips[j].0, ctips[j].1);
                    }
                    try_flat_map_all(ctips, g, p);
                },
                BlockTx::M6 { sidechain_number, removed_pending_withdrawal, .. } => {
                    if let Some((s, tx)) = success_event(
                        block_info.events@,
                        sidechain_number,
                        removed_pending_withdrawal,
                    ) {
                        if s > 0 {
                            if let Ok(utxo) = server.treasury_utxo(
                                sidechain_number,
                                (s - 1) as u64,
                            ) {
                                displayed_hash_spells(utxo.outpoint.txid);
                            }
                        }
                    }
                },
            }
        }
        try_flat_map_all(txs, f, p);
        let moved = try_flat_map(txs, f)->Ok_0;
        let ts = server.transitions(height, block, block_info, block_diff)->Ok_0;
        assert forall|k: int| #![trigger ts[k]] 0 <= k < ts.len() implies follows_the_read(
            server,
            ts[k],
        ) by {
            if k < moved.len() {
                assert(p(try_flat_map(txs, f)->Ok_0[k]));
            }
        }
    }
}

/// Where what was read of a treasury is what an earlier transition made it, the next
/// transition of that sidechain starts from the very output that the earlier one
/// ended with.
pub proof fn transitions_form_a_chain(
    server: Server,
    height: u32,
    block: Block,
    block_info: BlockInfo,
    block_diff: BlockDiff,
    i: int,
    j: int,
    utxo: TreasuryUtxo,
)
    requires
        server.transitions(height, block, block_info, block_diff) matches Ok(ts) && {
            &&& 0 <= i < ts.len()
            &&& 0 <= j < ts.len()
            &&& ts[i].sidechain_number == ts[j].sidechain_number
            &&& ts[i].sequence_number matches Some(s)
            &&& s < u64::MAX
            &&& ts[j].sequence_number == Some((s + 1) as u64)
            &&& server.treasury_utxo(SidechainNumber(ts[i].sidechain_number as u8), s) == Ok::<
                _,
                RpcError,
            >(utxo)
            &&& ts[i].new_ctip matches Some(made)
            &&& names(made, utxo.outpoint, utxo.total_value)
        },
    ensures
        server.transitions(height, block, block_info, block_diff) matches Ok(ts)
            && ts[j].previous_ctip == ts[i].new_ctip,
{
    let ts = server.transitions(height, block, block_info, block_diff)->Ok_0;
    transitions_follow_the_reads(server, height, block, block_info, block_diff);
    assert(follows_the_read(server, ts[j]));
    let bytes = utxo.outpoint.txid.0@.reverse();
    spelling_is_unique(ts[i].new_ctip->0.txid, ts[j].previous_ctip->0.txid, bytes, bytes);
}

/// A withdrawal behind other transactions is read against the treasury before the
/// sequence number of its success, and against nothing else.
pub proof fn withdrawals_are_read_for(
    block_info: BlockInfo,
    a: BlockDiff,
    b: BlockDiff,
    n: SidechainNumber,
    ctip: Ctip,
    m6id: M6id,
    pending: PendingM6idInfo,
)
    requires
        b.txs@ == a.txs@.push(
            BlockTx::M6 {
                sidechain_number: n,
                new_ctip: ctip,
                removed_pending_withdrawal: m6id,
                removed_pending_withdrawal_info: pending,
            },
        ),
    ensures
        a.txs@.len() == 0 ==> block_queries(block_info, a).len() == 0,
        match success_event(block_info.events@, n, m6id) {
            Some((s, _)) => if s > 0 {
                block_queries(block_info, b) == block_queries(block_info, a).push(
                    TreasuryQuery { sidechain_number: n, sequence_number: (s - 1) as u64 },
                )
            } else {
                block_queries(block_info, b) == block_queries(block_info, a)
            },
            None => block_queries(block_info, b) == block_queries(block_info, a),
        },
{
    let f = tx_queries(block_info);
    if a.txs@.len() == 0 {
        assert(a.txs@.map_values(f) =~= Seq::empty());
    }
    a.txs@.lemma_flat_map_push(f, b.txs@.last());
    assert(block_queries(block_info, b) =~= block_queries(block_info, a) + f(b.txs@.last()));
    match success_event(block_info.events@, n, m6id) {
        Some((s, _)) => {
            if s > 0 {
                assert(block_queries(block_info, b) =~= block_queries(block_info, a).push(
                    TreasuryQuery { sidechain_number: n, sequence_number: (s - 1) as u64 },
                ));
            } else {
                assert(block_queries(block_info, b) =~= block_queries(block_info, a));
            }
        },
        None => {
            assert(block_queries(block_info, b) =~= block_queries(block_info, a));
        },
    }
}

proof fn lemma_flat_map_member<T, U>(s: Seq<T>, f: spec_fn(T) -> Seq<U>, u: U)
    ensures
        s.flat_map(f).contains(u) <==> exists|i: int|
            #![trigger s[i]]
            0 <= i < s.len() && f(s[i]).contains(u),
    decreases s.len(),
{
    if s.len() == 0 {
        assert(s.map_values(f) =~= Seq::empty());
    } else {
        let p = s.drop_last();
        lemma_flat_map_member(p, f, u);
        p.lemma_flat_map_push(f, s.last());
        assert(p.push(s.last()) =~= s);
        let head = p.flat_map(f);
        let tail = f(s.last());
        assert(s.flat_map(f) =~= head + tail);
        if s.flat_map(f).contains(u) {
            let k = choose|k: int| 0 <= k < (head + tail).len() && (head + tail)[k] == u;
            if k < head.len() {
                assert(head[k] == u);
                let i = choose|i: int| #![trigger p[i]] 0 <= i < p.len() && f(p[i]).contains(u);
                assert(s[i] == p[i]);
            } else {
                assert(tail[k - head.len()] == u);
                assert(s[s.len() - 1] == s.last());
            }
        }
        if exists|i: int| #![trigger s[i]] 0 <= i < s.len() && f(s[i]).contains(u) {
            let i = choose|i: int| #![trigger s[i]] 0 <= i < s.len() && f(s[i]).contains(u);
            if i < p.len() {
                assert(p[i] == s[i]);
                let k = choose|k: int| 0 <= k < head.len() && head[k] == u;
                assert((head + tail)[k] == u);
            } else {
                let k = choose|k: int| 0 <= k < tail.len() && tail[k] == u;
                assert((head + tail)[head.len() + k] == u);
            }
        }
    }
}

/// A deposit transaction behind other transactions is read against the treasury before
/// the sequence number of each of its deposits but first ones, and against nothing
/// else.
pub proof fn deposits_are_read_for(
    block_info: BlockInfo,
    a: BlockDiff,
    b: BlockDiff,
    new_ctips: Vec<(SidechainNumber, Ctip)>,
    q: TreasuryQuery,
)
    requires
        b.txs@ == a.txs@.push(BlockTx::M5 { new_ctips }),
    ensures
        block_queries(block_info, b).contains(q) <==> block_queries(block_info, a).contains(q) || (
        exists|i: int|
            #![trigger new_ctips@[i]]
            0 <= i < new_ctips@.len() && new_ctips@[i].0 == q.sidechain_number && (deposit_event(
                block_info.events@,
                new_ctips@[i].0,
                new_ctips@[i].1.outpoint,
            ) matches Some(d) && d.sequence_number == q.sequence_number + 1)),
{
    let f = tx_queries(block_info);
    let g = deposit_queries(block_info);
    let ctips = ctips_in_order(new_ctips@);
    lemma_flat_map_member(a.txs@, f, q);
    lemma_flat_map_member(b.txs@, f, q);
    lemma_flat_map_member(ctips, g, q);
    ctips_stand_by_sidechain(new_ctips@);
    ctips.to_multiset_ensures();
    new_ctips@.to_multiset_ensures();
    assert(b.txs@[a.txs@.len() as int] == BlockTx::M5 { new_ctips });
    assert(f(BlockTx::M5 { new_ctips }) == ctips.flat_map(g));
    assert forall|entry: (SidechainNumber, Ctip)| #[trigger] g(entry).contains(q) <==> entry.0
        == q.sidechain_number && (deposit_event(
        block_info.events@,
        entry.0,
        entry.1.outpoint,
    ) matches Some(d) && d.sequence_number == q.sequence_number + 1) by {
        if let Some(d) = deposit_event(block_info.events@, entry.0, entry.1.outpoint) {
            let one = query_before(entry.0, d.sequence_number);
            if d.sequence_number > 0 {
                assert(one[0] == TreasuryQuery {
                    sidechain_number: entry.0,
                    sequence_number: (d.sequence_number - 1) as u64,
                });
                if one.contains(q) {
                    assert(one[0] == q);
                }
            }
        }
    }
    if block_queries(block_info, b).contains(q) {
        let i = choose|i: int|
            #![trigger b.txs@[i]]
            0 <= i < b.txs@.len() && f(b.txs@[i]).contains(q);
        if i < a.txs@.len() {
            assert(a.txs@[i] == b.txs@[i]);
        } else {
            let k = choose|k: int|
                #![trigger ctips[k]]
                0 <= k < ctips.len() && g(ctips[k]).contains(q);
            assert(ctips.contains(ctips[k]));
            assert(new_ctips@.to_multiset().count(ctips[k]) > 0);
            assert(new_ctips@.contains(ctips[k]));
            let l = choose|l: int| 0 <= l < new_ctips@.len() && new_ctips@[l] == ctips[k];
            assert(g(new_ctips@[l]).contains(q));
        }
    }
    if block_queries(block_info, a).contains(q) {
        let i = choose|i: int|
            #![trigger a.txs@[i]]
            0 <= i < a.txs@.len() && f(a.txs@[i]).contains(q);
        assert(b.txs@[i] == a.txs@[i]);
    }
    if exists|i: int|
        #![trigger new_ctips@[i]]
        0 <= i < new_ctips@.len() && g(new_ctips@[i]).contains(q) {
        let l = choose|l: int|
            #![trigger new_ctips@[l]]
            0 <= l < new_ctips@.len() && g(new_ctips@[l]).contains(q);
        assert(new_ctips@.contains(new_ctips@[l]));
        assert(ctips.to_multiset().count(new_ctips@[l]) > 0);
        assert(ctips.contains(new_ctips@[l]));
        let k = choose|k: int| 0 <= k < ctips.len() && ctips[k] == new_ctips@[l];
        assert(g(ctips[k]).contains(q));
    }
    assert forall|i: int|
        #![trigger new_ctips@[i]]
        0 <= i < new_ctips@.len() && new_ctips@[i].0 == q.sidechain_number && (deposit_event(
            block_info.events@,
            new_ctips@[i].0,
            new_ctips@[i].1.outpoint,
        ) matches Some(d) && d.sequence_number == q.sequence_number + 1) implies g(
        new_ctips@[i],
    ).contains(q) by {
    }
}

/// New treasury outputs of one sidechain, and failures of one bundle, keep the order in
/// which they came.
pub proof fn equals_keep_their_order(
    ctips: Seq<(SidechainNumber, Ctip)>,
    failed: Seq<(SidechainNumber, Vec<(M6id, PendingM6idInfo)>)>,
    n: SidechainNumber,
    m6id: M6id,
)
    ensures
        ctips_in_order(ctips).filter(|entry: (SidechainNumber, Ctip)| entry.0 == n) == ctips.filter(
            |entry: (SidechainNumber, Ctip)| entry.0 == n,
        ),
        failed_in_order(failed).filter(
            |entry: (SidechainNumber, M6id, PendingM6idInfo)| entry.0 == n && entry.1 == m6id,
        ) == failed_entries(failed).filter(
            |entry: (SidechainNumber, M6id, PendingM6idInfo)| entry.0 == n && entry.1 == m6id,
        ),
{
    let key = by_key::<(SidechainNumber, Ctip)>();
    let k = seq![n.0 as int];
    stable_sort_is_stable(ctips, key, k);
    let p = |entry: (SidechainNumber, Ctip)| entry.0 == n;
    let q = |entry: (SidechainNumber, Ctip)| key(entry) == k;
    assert forall|entry: (SidechainNumber, Ctip)| #[trigger] p(entry) == q(entry) by {
        assert(key(entry)[0] == entry.0.0 as int);
        if entry.0 == n {
            assert(key(entry) =~= k);
        } else {
            assert(key(entry)[0] != k[0]);
        }
    }
    assert(p =~= q);
    let key = by_key::<(SidechainNumber, M6id, PendingM6idInfo)>();
    let k = seq![n.0 as int] + hash_key(m6id);
    stable_sort_is_stable(failed_entries(failed), key, k);
    let p = |entry: (SidechainNumber, M6id, PendingM6idInfo)| entry.0 == n && entry.1 == m6id;
    let q = |entry: (SidechainNumber, M6id, PendingM6idInfo)| key(entry) == k;
    assert forall|entry: (SidechainNumber, M6id, PendingM6idInfo)| #[trigger]
        p(entry) == q(entry) by {
        if key(entry) == k {
            assert(key(entry)[0] == entry.0.0 as int);
            assert(k[0] == n.0 as int);
            assert(key(entry).drop_first() =~= hash_key(entry.1));
            assert(k.drop_first() =~= hash_key(m6id));
            assert forall|i: int| 0 <= i < 32 implies entry.1.0@[i] == m6id.0@[i] by {
                assert(hash_key(entry.1)[i] == entry.1.0@[i] as int);
                assert(hash_key(m6id)[i] == m6id.0@[i] as int);
            }
            assert(entry.1.0 =~= m6id.0);
        }
    }
    assert(p =~= q);
}

} // verus!
