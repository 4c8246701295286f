//! How a block moved the treasuries of sidechains.
use vstd::prelude::*;

use crate::chain::{checked_add, checked_sub, checked_sum, compute_txid, total, txid_of};
use crate::error::{display_hash, ReadError, RpcError};
use crate::order::{by_key, items, lex_le, sort, stable_sort, Keyed};
use crate::search::{find_map, find_map_step, try_flat_map, try_flat_map_stops};
use crate::text::hex;
use crate::types::{
    find_entry, lookup, Block, BlockDiff, BlockEvent, BlockInfo, BlockTx, Ctip, Deposit, Hash256,
    HeaderInfo, M6id, OutPoint, PendingM6idInfo, SidechainNumber, Transaction, TreasuryUtxo,
    WithdrawalBundleEventKind,
};
use crate::wire::{
    hash_hex, opt_view, outcome, transaction_hex, views, views_push, ConsensusHex, Hex, ReverseHex,
    TransitionKind, TreasuryCtip, TreasuryCtipView, TreasuryTransition, TreasuryTransitionView,
};

verus! {

/// A treasury output out of the history of a sidechain, by its sequence number.
#[derive(Clone, Copy, Debug, PartialEq, Eq)]
pub struct TreasuryQuery {
    pub sidechain_number: SidechainNumber,
    pub sequence_number: u64,
}

/// What the validator answered when a treasury output was read.
#[derive(Debug, PartialEq, Eq)]
pub struct TreasuryRead {
    pub query: TreasuryQuery,
    pub reply: Result<TreasuryUtxo, ReadError>,
}

/// The service, with what it read of the history of treasuries.
#[derive(Debug, PartialEq, Eq)]
pub struct Server {
    pub treasury: Vec<TreasuryRead>,
}

/// The answer that a reading gives to `query`.
pub open spec fn answer_to(
    query: TreasuryQuery,
) -> spec_fn(TreasuryRead) -> Option<Result<TreasuryUtxo, ReadError>> {
    |read: TreasuryRead|
        if read.query == query {
            Some(read.reply)
        } else {
            None
        }
}

/// The first answer to `query`.
pub open spec fn read_of(
    reads: Seq<TreasuryRead>,
    query: TreasuryQuery,
) -> Option<Result<TreasuryUtxo, ReadError>> {
    find_map(reads, answer_to(query))
}

/// A treasury output that a block created.
pub open spec fn treasury_ctip_view(ctip: Ctip) -> TreasuryCtipView {
    TreasuryCtipView {
        txid: display_hash(ctip.outpoint.txid),
        vout: ctip.outpoint.vout,
        value_sats: ctip.value,
    }
}

/// A treasury output out of the history of a sidechain.
pub open spec fn historical_treasury_ctip_view(utxo: TreasuryUtxo) -> TreasuryCtipView {
    TreasuryCtipView {
        txid: display_hash(utxo.outpoint.txid),
        vout: utxo.outpoint.vout,
        value_sats: utxo.total_value,
    }
}

/// Writes a treasury output that a block created.
pub fn treasury_ctip(ctip: &Ctip) -> (r: TreasuryCtip)
    ensures
        r@ == treasury_ctip_view(*ctip),
{
    TreasuryCtip {
        txid: ReverseHex::encode(&ctip.outpoint.txid),
        vout: ctip.outpoint.vout,
        value_sats: ctip.value,
    }
}

/// Writes a treasury output out of the history of a sidechain.
pub fn historical_treasury_ctip(treasury: &TreasuryUtxo) -> (r: TreasuryCtip)
    ensures
        r@ == historical_treasury_ctip_view(*treasury),
{
    TreasuryCtip {
        txid: ReverseHex::encode(&treasury.outpoint.txid),
        vout: treasury.outpoint.vout,
        value_sats: treasury.total_value,
    }
}

/// The deposit into sidechain `n` that created `outpoint`, if an event holds it.
pub open spec fn deposit_in(
    n: SidechainNumber,
    outpoint: OutPoint,
) -> spec_fn(BlockEvent) -> Option<Deposit> {
    |event: BlockEvent|
        match event {
            BlockEvent::Deposits(deposits) => match lookup(deposits@, n) {
                Some(deposit) => if deposit.outpoint == outpoint {
                    Some(deposit)
                } else {
                    None
                },
                None => None,
            },
            _ => None,
        }
}

/// The deposit into sidechain `n` that created `outpoint`, as the first event
/// that holds it has it.
pub open spec fn deposit_event(
    events: Seq<BlockEvent>,
    n: SidechainNumber,
    outpoint: OutPoint,
) -> Option<Deposit> {
    find_map(events, deposit_in(n, outpoint))
}

/// A transaction, if `txid` is its identifier.
pub open spec fn identified_by(txid: Hash256) -> spec_fn(Transaction) -> Option<Transaction> {
    |tx: Transaction|
        if txid_of(tx@) == txid@ {
            Some(tx)
        } else {
            None
        }
}

/// The first transaction of the block with identifier `txid`.
pub open spec fn transaction_in(txs: Seq<Transaction>, txid: Hash256) -> Option<Transaction> {
    find_map(txs, identified_by(txid))
}

/// The sequence number and the transaction with which bundle `m6id` of sidechain
/// `n` succeeded, if an event says that it did.
pub open spec fn success_in(
    n: SidechainNumber,
    m6id: M6id,
) -> spec_fn(BlockEvent) -> Option<(u64, Transaction)> {
    |event: BlockEvent|
        match event {
            BlockEvent::WithdrawalBundle(bundle) => if bundle.sidechain_id == n && bundle.m6id
                == m6id {
                match bundle.kind {
                    WithdrawalBundleEventKind::Succeeded { sequence_number, transaction } => Some(
                        (sequence_number, transaction),
                    ),
                    _ => None,
                }
            } else {
                None
            },
            _ => None,
        }
}

/// The sequence number and the transaction with which bundle `m6id` of sidechain
/// `n` succeeded, as the first event that says so has it.
pub open spec fn success_event(
    events: Seq<BlockEvent>,
    n: SidechainNumber,
    m6id: M6id,
) -> Option<(u64, Transaction)> {
    find_map(events, success_in(n, m6id))
}

/// What a withdrawal pays out: the values of all outputs but the first, which is
/// the new treasury.
pub open spec fn payouts(tx: Transaction) -> Seq<u64> {
    if tx.output@.len() == 0 {
        Seq::empty()
    } else {
        Seq::new((tx.output@.len() - 1) as nat, |i: int| tx.output@[i + 1].value)
    }
}

/// The bundles that failed, with their sidechains.
pub open spec fn failed_entries(
    failed: Seq<(SidechainNumber, Vec<(M6id, PendingM6idInfo)>)>,
) -> Seq<(SidechainNumber, M6id, PendingM6idInfo)> {
    failed.flat_map(
        |entry: (SidechainNumber, Vec<(M6id, PendingM6idInfo)>)|
            entry.1@.map_values(|bundle: (M6id, PendingM6idInfo)| (entry.0, bundle.0, bundle.1)),
    )
}

impl Keyed for (SidechainNumber, Ctip) {
    type Item = (SidechainNumber, Ctip);

    open spec fn item(&self) -> Self::Item {
        *self
    }

    open spec fn key(item: Self::Item) -> Seq<int> {
        seq![item.0.0 as int]
    }

    fn key_le(&self, other: &Self) -> (r: bool) {
        proof {
            reveal_with_fuel(lex_le, 2);
        }
        self.0.0 <= other.0.0
    }
}

/// The bytes of a hash as numbers.
pub open spec fn hash_key(h: Hash256) -> Seq<int> {
    h@.map_values(|b: u8| b as int)
}

/// Whether hash `a` comes no later than `b`, byte by byte.
pub fn hash_le(a: &Hash256, b: &Hash256) -> (r: bool)
    ensures
        r == lex_le(hash_key(*a), hash_key(*b)),
{
    let ghost p = hash_key(*a);
    let ghost q = hash_key(*b);
    assert(p.skip(0) =~= p);
    assert(q.skip(0) =~= q);
    for i in 0..32usize
        invariant
            p == hash_key(*a),
            q == hash_key(*b),
            lex_le(p, q) == lex_le(p.skip(i as int), q.skip(i as int)),
    {
        assert(p.skip(i as int).drop_first() =~= p.skip(i + 1));
        assert(q.skip(i as int).drop_first() =~= q.skip(i + 1));
        if a.0[i] < b.0[i] {
            return true;
        }
        if a.0[i] > b.0[i] {
            return false;
        }
    }
    true
}

impl Keyed for Hash256 {
    type Item = Hash256;

    open spec fn item(&self) -> Self::Item {
        *self
    }

    open spec fn key(item: Self::Item) -> Seq<int> {
        hash_key(item)
    }

    fn key_le(&self, other: &Self) -> (r: bool) {
        hash_le(self, other)
    }
}

impl Keyed for (SidechainNumber, M6id, PendingM6idInfo) {
    type Item = (SidechainNumber, M6id, PendingM6idInfo);

    open spec fn item(&self) -> Self::Item {
        *self
    }

    open spec fn key(item: Self::Item) -> Seq<int> {
        seq![item.0.0 as int] + hash_key(item.1)
    }

    fn key_le(&self, other: &Self) -> (r: bool) {
        proof {
            assert(Self::key(self.item()).drop_first() =~= hash_key(self.1));
            assert(Self::key(other.item()).drop_first() =~= hash_key(other.1));
        }
        self.0.0 < other.0.0 || (self.0.0 == other.0.0 && hash_le(&self.1, &other.1))
    }
}

/// The new treasury outputs of a deposit transaction in the order of their
/// sidechains.
pub open spec fn ctips_in_order(ctips: Seq<(SidechainNumber, Ctip)>) -> Seq<
    (SidechainNumber, Ctip),
> {
    stable_sort(ctips, by_key::<(SidechainNumber, Ctip)>())
}

/// The bundles that failed, in the order of their sidechains and identifiers.
pub open spec fn failed_in_order(
    failed: Seq<(SidechainNumber, Vec<(M6id, PendingM6idInfo)>)>,
) -> Seq<(SidechainNumber, M6id, PendingM6idInfo)> {
    stable_sort(failed_entries(failed), by_key::<(SidechainNumber, M6id, PendingM6idInfo)>())
}

/// A bundle that failed, as a transition.
pub open spec fn failed_transition(
    height: u32,
    entry: (SidechainNumber, M6id, PendingM6idInfo),
) -> TreasuryTransitionView {
    TreasuryTransitionView {
        kind: TransitionKind::WithdrawalFailed,
        sidechain_number: entry.0.0 as u32,
        previous_ctip: None,
        new_ctip: None,
        sequence_number: None,
        delta_sats: None,
        payout_sats: None,
        fee_sats: None,
        m6id: Some(hash_hex(entry.1)),
        sidechain_address: None,
        transaction: None,
        proposal_height: Some(entry.2.proposal_height),
        terminal_height: Some(height),
    }
}

impl Server {
    /// A treasury output as it was read, or why it is not to be had.
    pub open spec fn treasury_utxo(
        &self,
        sidechain_number: SidechainNumber,
        sequence_number: u64,
    ) -> Result<TreasuryUtxo, RpcError> {
        match read_of(self.treasury@, TreasuryQuery { sidechain_number, sequence_number }) {
            Some(Ok(utxo)) => Ok(utxo),
            Some(Err(e)) => Err(RpcError::Internal { message: e.message }),
            None => Err(RpcError::TreasuryNotRead { sidechain_number, sequence_number }),
        }
    }

    /// The treasury output before the one with this sequence number; the first
    /// has none before it.
    pub open spec fn previous_ctip(
        &self,
        sidechain_number: SidechainNumber,
        sequence_number: u64,
    ) -> Result<Option<TreasuryCtipView>, RpcError> {
        if sequence_number == 0 {
            Ok(None)
        } else {
            match self.treasury_utxo(sidechain_number, (sequence_number - 1) as u64) {
                Ok(utxo) => Ok(Some(historical_treasury_ctip_view(utxo))),
                Err(e) => Err(e),
            }
        }
    }

    /// A deposit into sidechain `n` that made `ctip` its treasury.
    pub open spec fn deposit_transition(
        &self,
        height: u32,
        block: Block,
        block_info: BlockInfo,
        n: SidechainNumber,
        ctip: Ctip,
    ) -> Result<TreasuryTransitionView, RpcError> {
        match deposit_event(block_info.events@, n, ctip.outpoint) {
            None => Err(RpcError::DepositWithoutEvent { sidechain_number: n }),
            Some(deposit) => match transaction_in(block.txdata@, ctip.outpoint.txid) {
                None => Err(RpcError::DepositOutsideBlock { txid: ctip.outpoint.txid }),
                Some(tx) => match self.previous_ctip(n, deposit.sequence_number) {
                    Err(e) => Err(e),
                    Ok(previous) => Ok(
                        TreasuryTransitionView {
                            kind: TransitionKind::Deposit,
                            sidechain_number: n.0 as u32,
                            previous_ctip: previous,
                            new_ctip: Some(treasury_ctip_view(ctip)),
                            sequence_number: Some(deposit.sequence_number),
                            delta_sats: Some(deposit.value),
                            payout_sats: None,
                            fee_sats: None,
                            m6id: None,
                            sidechain_address: Some(hex(deposit.address@)),
                            transaction: Some(transaction_hex(tx@)),
                            proposal_height: None,
                            terminal_height: Some(height),
                        },
                    ),
                },
            },
        }
    }

    /// A withdrawal of bundle `m6id` from sidechain `n` that made `ctip` its
    /// treasury.
    pub open spec fn withdrawal_transition(
        &self,
        height: u32,
        block_info: BlockInfo,
        n: SidechainNumber,
        ctip: Ctip,
        m6id: M6id,
        info: PendingM6idInfo,
    ) -> Result<TreasuryTransitionView, RpcError> {
        match success_event(block_info.events@, n, m6id) {
            None => Err(RpcError::WithdrawalWithoutEvent { sidechain_number: n }),
            Some((sequence_number, tx)) => if sequence_number == 0 {
                Err(RpcError::WithdrawalAtSequenceZero)
            } else {
                match self.treasury_utxo(n, (sequence_number - 1) as u64) {
                    Err(e) => Err(e),
                    Ok(previous) => {
                        let payout = total(payouts(tx));
                        if payout > u64::MAX {
                            Err(RpcError::PayoutOverflow)
                        } else if ctip.value + payout > u64::MAX {
                            Err(RpcError::OutputOverflow)
                        } else if ctip.value + payout > previous.total_value {
                            Err(RpcError::OutputExceedsTreasury)
                        } else {
                            Ok(
                                TreasuryTransitionView {
                                    kind: TransitionKind::WithdrawalSucceeded,
                                    sidechain_number: n.0 as u32,
                                    previous_ctip: Some(historical_treasury_ctip_view(previous)),
                                    new_ctip: Some(treasury_ctip_view(ctip)),
                                    sequence_number: Some(sequence_number),
                                    delta_sats: Some((previous.total_value - ctip.value) as u64),
                                    payout_sats: Some(payout as u64),
                                    fee_sats: Some(
                                        (previous.total_value - ctip.value - payout) as u64,
                                    ),
                                    m6id: Some(hash_hex(m6id)),
                                    sidechain_address: None,
                                    transaction: Some(transaction_hex(tx@)),
                                    proposal_height: Some(info.proposal_height),
                                    terminal_height: Some(height),
                                },
                            )
                        }
                    },
                }
            },
        }
    }

    /// [`Server::deposit_transition`] of one entry of a deposit transaction.
    pub open spec fn deposit_step(
        &self,
        height: u32,
        block: Block,
        block_info: BlockInfo,
    ) -> spec_fn((SidechainNumber, Ctip)) -> Result<Seq<TreasuryTransitionView>, RpcError> {
        |entry: (SidechainNumber, Ctip)|
            match self.deposit_transition(height, block, block_info, entry.0, entry.1) {
                Ok(t) => Ok(seq![t]),
                Err(e) => Err(e),
            }
    }

    /// The transitions of one transaction.
    pub open spec fn tx_step(
        &self,
        height: u32,
        block: Block,
        block_info: BlockInfo,
    ) -> spec_fn(BlockTx) -> Result<Seq<TreasuryTransitionView>, RpcError> {
        |tx: BlockTx|
            match tx {
                BlockTx::M5 { new_ctips } => try_flat_map(
                    ctips_in_order(new_ctips@),
                    self.deposit_step(height, block, block_info),
                ),
                BlockTx::M6 {
                    sidechain_number,
                    new_ctip,
                    removed_pending_withdrawal,
                    removed_pending_withdrawal_info,
                } => match self.withdrawal_transition(
                    height,
                    block_info,
                    sidechain_number,
                    new_ctip,
                    removed_pending_withdrawal,
                    removed_pending_withdrawal_info,
                ) {
                    Ok(t) => Ok(seq![t]),
                    Err(e) => Err(e),
                },
            }
    }

    /// The transitions of a block: those of its transactions in their order, then
    /// the bundles that failed.
    pub open spec fn transitions(
        &self,
        height: u32,
        block: Block,
        block_info: BlockInfo,
        block_diff: BlockDiff,
    ) -> Result<Seq<TreasuryTransitionView>, RpcError> {
        match try_flat_map(block_diff.txs@, self.tx_step(height, block, block_info)) {
            Err(e) => Err(e),
            Ok(moved) => Ok(
                moved + failed_in_order(block_diff.coinbase.failed_m6ids@).map_values(
                    |entry: (SidechainNumber, M6id, PendingM6idInfo)|
                        failed_transition(height, entry),
                ),
            ),
        }
    }

    /// A treasury output as it was read.
    pub fn get_treasury_utxo(
        &self,
        sidechain_number: SidechainNumber,
        sequence_number: u64,
    ) -> (r: Result<TreasuryUtxo, RpcError>)
        ensures
            r == self.treasury_utxo(sidechain_number, sequence_number),
    {
        let ghost query = TreasuryQuery { sidechain_number, sequence_number };
        assert(self.treasury@.skip(0) =~= self.treasury@);
        for i in 0..self.treasury.len()
            invariant
                query == (TreasuryQuery { sidechain_number, sequence_number }),
                read_of(self.treasury@, query) == find_map(
                    self.treasury@.skip(i as int),
                    answer_to(query),
                ),
        {
            proof {
                find_map_step(self.treasury@, answer_to(query), i as int);
            }
            let read = &self.treasury[i];
            if read.query.sidechain_number == sidechain_number && read.query.sequence_number
                == sequence_number {
                return match &read.reply {
                    Ok(utxo) => Ok(*utxo),
                    Err(e) => Err(RpcError::Internal { message: e.message.clone() }),
                };
            }
        }
        Err(RpcError::TreasuryNotRead { sidechain_number, sequence_number })
    }

    /// The treasury output before the one with this sequence number.
    pub fn previous_treasury_ctip(
        &self,
        sidechain_number: SidechainNumber,
        sequence_number: u64,
    ) -> (r: Result<Option<TreasuryCtip>, RpcError>)
        ensures
            match r {
                Ok(ctip) => self.previous_ctip(sidechain_number, sequence_number) == Ok::<
                    _,
                    RpcError,
                >(opt_view(ctip)),
                Err(e) => self.previous_ctip(sidechain_number, sequence_number) == Err::<
                    Option<TreasuryCtipView>,
                    _,
                >(e),
            },
    {
        match sequence_number.checked_sub(1) {
            None => Ok(None),
            Some(previous_sequence) => match self.get_treasury_utxo(
                sidechain_number,
                previous_sequence,
            ) {
                Ok(previous) => Ok(Some(historical_treasury_ctip(&previous))),
                Err(e) => Err(e),
            },
        }
    }

    /// The transition of one new treasury output of a deposit transaction.
    fn deposit(
        &self,
        height: u32,
        block: &Block,
        block_info: &BlockInfo,
        n: SidechainNumber,
        ctip: &Ctip,
    ) -> (r: Result<TreasuryTransition, RpcError>)
        requires
            block.encodable(),
        ensures
            match r {
                Ok(t) => self.deposit_transition(height, *block, *block_info, n, *ctip) == Ok::<
                    _,
                    RpcError,
                >(t@),
                Err(e) => self.deposit_transition(height, *block, *block_info, n, *ctip) == Err::<
                    TreasuryTransitionView,
                    _,
                >(e),
            },
    {
        let deposit = match find_deposit(&block_info.events, n, &ctip.outpoint) {
            Some(deposit) => deposit,
            None => return Err(RpcError::DepositWithoutEvent { sidechain_number: n }),
        };
        let transaction = match find_transaction(&block.txdata, &ctip.outpoint.txid) {
            Some(transaction) => transaction,
            None => return Err(RpcError::DepositOutsideBlock { txid: ctip.outpoint.txid }),
        };
        let previous_ctip = match self.previous_treasury_ctip(n, deposit.sequence_number) {
            Ok(previous_ctip) => previous_ctip,
            Err(e) => return Err(e),
        };
        Ok(
            TreasuryTransition {
                kind: TransitionKind::Deposit,
                sidechain_number: n.0 as u32,
                previous_ctip,
                new_ctip: Some(treasury_ctip(ctip)),
                sequence_number: Some(deposit.sequence_number),
                delta_sats: Some(deposit.value),
                payout_sats: None,
                fee_sats: None,
                m6id: None,
                sidechain_address: Some(Hex::encode(&deposit.address)),
                transaction: Some(ConsensusHex::encode_transaction(transaction)),
                proposal_height: None,
                terminal_height: Some(height),
            },
        )
    }

    /// The transitions of a deposit transaction.
    fn deposits(
        &self,
        height: u32,
        block: &Block,
        block_info: &BlockInfo,
        new_ctips: &Vec<(SidechainNumber, Ctip)>,
    ) -> (r: Result<Vec<TreasuryTransition>, RpcError>)
        requires
            block.encodable(),
        ensures
            outcome(r) == try_flat_map(
                ctips_in_order(new_ctips@),
                self.deposit_step(height, *block, *block_info),
            ),
    {
        broadcast use views_push;

        let ctips = sort(new_ctips);
        let ghost f = self.deposit_step(height, *block, *block_info);
        proof {
            assert(items(new_ctips@) =~= new_ctips@);
            assert(items(ctips@) =~= ctips@);
        }
        let mut transitions: Vec<TreasuryTransition> = Vec::new();
        assert(views(transitions@) =~= Seq::empty());
        for i in 0..ctips.len()
            invariant
                block.encodable(),
                ctips@ == ctips_in_order(new_ctips@),
                f == self.deposit_step(height, *block, *block_info),
                try_flat_map(ctips@.take(i as int), f) == Ok::<_, RpcError>(views(transitions@)),
        {
            proof {
                assert(ctips@.take(i + 1).drop_last() =~= ctips@.take(i as int));
                assert(ctips@.take(i + 1).last() == ctips@[i as int]);
            }
            match self.deposit(height, block, block_info, ctips[i].0, &ctips[i].1) {
                Ok(transition) => {
                    let ghost done = views(transitions@);
                    transitions.push(transition);
                    assert(views(transitions@) == done.push(transition@));
                    assert(done.push(transition@) =~= done + seq![transition@]);
                },
                Err(e) => {
                    proof {
                        try_flat_map_stops(ctips@, f, i + 1);
                    }
                    return Err(e);
                },
            }
        }
        assert(ctips@.take(ctips@.len() as int) =~= ctips@);
        Ok(transitions)
    }

    /// The transition of a withdrawal.
    fn withdrawal(
        &self,
        height: u32,
        block_info: &BlockInfo,
        n: SidechainNumber,
        new_ctip: &Ctip,
        m6id: &M6id,
        info: &PendingM6idInfo,
    ) -> (r: Result<TreasuryTransition, RpcError>)
        requires
            block_info.encodable(),
        ensures
            match r {
                Ok(t) => self.withdrawal_transition(
                    height,
                    *block_info,
                    n,
                    *new_ctip,
                    *m6id,
                    *info,
                ) == Ok::<_, RpcError>(t@),
                Err(e) => self.withdrawal_transition(
                    height,
                    *block_info,
                    n,
                    *new_ctip,
                    *m6id,
                    *info,
                ) == Err::<TreasuryTransitionView, _>(e),
            },
    {
        let (sequence_number, transaction) = match find_success(&block_info, n, m6id) {
            Some(success) => success,
            None => return Err(RpcError::WithdrawalWithoutEvent { sidechain_number: n }),
        };
        let previous_sequence = match sequence_number.checked_sub(1) {
            Some(previous_sequence) => previous_sequence,
            None => return Err(RpcError::WithdrawalAtSequenceZero),
        };
        let previous = match self.get_treasury_utxo(n, previous_sequence) {
            Ok(previous) => previous,
            Err(e) => return Err(e),
        };
        let payout = match checked_sum(&payout_values(transaction)) {
            Some(payout) => payout,
            None => return Err(RpcError::PayoutOverflow),
        };
        let outputs_total = match checked_add(new_ctip.value, payout) {
            Some(outputs_total) => outputs_total,
            None => return Err(RpcError::OutputOverflow),
        };
        let fee = match checked_sub(previous.total_value, outputs_total) {
            Some(fee) => fee,
            None => return Err(RpcError::OutputExceedsTreasury),
        };
        Ok(
            TreasuryTransition {
                kind: TransitionKind::WithdrawalSucceeded,
                sidechain_number: n.0 as u32,
                previous_ctip: Some(historical_treasury_ctip(&previous)),
                new_ctip: Some(treasury_ctip(new_ctip)),
                sequence_number: Some(sequence_number),
                delta_sats: checked_sub(previous.total_value, new_ctip.value),
                payout_sats: Some(payout),
                fee_sats: Some(fee),
                m6id: Some(ConsensusHex::encode_hash(m6id)),
                sidechain_address: None,
                transaction: Some(ConsensusHex::encode_transaction(transaction)),
                proposal_height: Some(info.proposal_height),
                terminal_height: Some(height),
            },
        )
    }

    /// How the transactions and the coinbase of a block moved treasuries. A
    /// withdrawal leaves no more than the treasury held, so its change of the
    /// treasury is never missing.
    pub fn treasury_transitions<H>(
        &self,
        header_info: &HeaderInfo<H>,
        block: &Block,
        block_info: &BlockInfo,
        block_diff: &BlockDiff,
    ) -> (r: Result<Vec<TreasuryTransition>, RpcError>)
        requires
            block.encodable(),
            block_info.encodable(),
        ensures
            outcome(r) == self.transitions(header_info.height, *block, *block_info, *block_diff),
    {
        broadcast use views_push;

        let height: u32 = header_info.height;
        let ghost f = self.tx_step(height, *block, *block_info);
        let ghost txs = block_diff.txs@;
        let mut transitions: Vec<TreasuryTransition> = Vec::new();
        assert(views(transitions@) =~= Seq::empty());
        for i in 0..block_diff.txs.len()
            invariant
                block.encodable(),
                block_info.encodable(),
                height == header_info.height,
                txs == block_diff.txs@,
                f == self.tx_step(height, *block, *block_info),
                try_flat_map(txs.take(i as int), f) == Ok::<_, RpcError>(views(transitions@)),
        {
            let ghost done = views(transitions@);
            proof {
                assert(txs.take(i + 1).drop_last() =~= txs.take(i as int));
                assert(txs.take(i + 1).last() == txs[i as int]);
            }
            match &block_diff.txs[i] {
                BlockTx::M5 { new_ctips } => {
                    match self.deposits(height, block, block_info, new_ctips) {
                        Ok(mut more) => {
                            let ghost added = views(more@);
                            transitions.append(&mut more);
                            assert(views(transitions@) =~= done + added);
                        },
                        Err(e) => {
                            proof {
                                try_flat_map_stops(txs, f, i + 1);
                            }
                            return Err(e);
                        },
                    }
                },
                BlockTx::M6 {
                    sidechain_number,
                    new_ctip,
                    removed_pending_withdrawal,
                    removed_pending_withdrawal_info,
                } => {
                    match self.withdrawal(
                        height,
                        block_info,
                        *sidechain_number,
                        new_ctip,
                        removed_pending_withdrawal,
                        removed_pending_withdrawal_info,
                    ) {
                        Ok(transition) => {
                            transitions.push(transition);
                            assert(views(transitions@) == done.push(transition@));
                            assert(done.push(transition@) =~= done + seq![transition@]);
                        },
                        Err(e) => {
                            proof {
                                try_flat_map_stops(txs, f, i + 1);
                            }
                            return Err(e);
                        },
                    }
                },
            }
        }
        assert(txs.take(txs.len() as int) =~= txs);
        let ghost moved = views(transitions@);
        let mut failed = failed_transitions(height, &block_diff.coinbase.failed_m6ids);
        let ghost added = views(failed@);
        transitions.append(&mut failed);
        assert(views(transitions@) =~= moved + added);
        Ok(transitions)
    }
}

/// Finds the deposit into sidechain `n` that created `outpoint`.
pub(crate) fn find_deposit<'a>(
    events: &'a Vec<BlockEvent>,
    n: SidechainNumber,
    outpoint: &OutPoint,
) -> (r: Option<&'a Deposit>)
    ensures
        match r {
            Some(deposit) => deposit_event(events@, n, *outpoint) == Some(*deposit),
            None => deposit_event(events@, n, *outpoint) is None,
        },
{
    assert(events@.skip(0) =~= events@);
    for i in 0..events.len()
        invariant
            deposit_event(events@, n, *outpoint) == find_map(
                events@.skip(i as int),
                deposit_in(n, *outpoint),
            ),
    {
        proof {
            find_map_step(events@, deposit_in(n, *outpoint), i as int);
        }
        if let BlockEvent::Deposits(deposits) = &events[i] {
            if let Some(deposit) = find_entry(deposits, n) {
                if deposit.outpoint.same(outpoint) {
                    return Some(deposit);
                }
            }
        }
    }
    None
}

/// Finds the transaction with identifier `txid`.
fn find_transaction<'a>(txs: &'a Vec<Transaction>, txid: &Hash256) -> (r: Option<&'a Transaction>)
    requires
        forall|i: int| 0 <= i < txs@.len() ==> (#[trigger] txs@[i]).encodable(),
    ensures
        match r {
            Some(tx) => transaction_in(txs@, *txid) == Some(*tx) && txs@.contains(*tx),
            None => transaction_in(txs@, *txid) is None,
        },
{
    assert(txs@.skip(0) =~= txs@);
    for i in 0..txs.len()
        invariant
            forall|j: int| 0 <= j < txs@.len() ==> (#[trigger] txs@[j]).encodable(),
            transaction_in(txs@, *txid) == find_map(txs@.skip(i as int), identified_by(*txid)),
    {
        proof {
            find_map_step(txs@, identified_by(*txid), i as int);
        }
        if compute_txid(&txs[i]).same(txid) {
            return Some(&txs[i]);
        }
    }
    None
}

/// Finds the success of bundle `m6id` of sidechain `n`.
pub(crate) fn find_success<'a>(
    block_info: &'a BlockInfo,
    n: SidechainNumber,
    m6id: &M6id,
) -> (r: Option<(u64, &'a Transaction)>)
    ensures
        match r {
            Some((sequence_number, tx)) => success_event(block_info.events@, n, *m6id) == Some(
                (sequence_number, *tx),
            ) && (block_info.encodable() ==> tx.encodable()),
            None => success_event(block_info.events@, n, *m6id) is None,
        },
{
    let ghost events = block_info.events@;
    assert(events.skip(0) =~= events);
    for i in 0..block_info.events.len()
        invariant
            events == block_info.events@,
            success_event(events, n, *m6id) == find_map(
                events.skip(i as int),
                success_in(n, *m6id),
            ),
    {
        proof {
            find_map_step(events, success_in(n, *m6id), i as int);
        }
        if let BlockEvent::WithdrawalBundle(bundle) = &block_info.events[i] {
            if bundle.sidechain_id == n && bundle.m6id.same(m6id) {
                if let WithdrawalBundleEventKind::Succeeded { sequence_number, transaction } =
                    &bundle.kind {
                    return Some((*sequence_number, transaction));
                }
            }
        }
    }
    None
}

/// The values that a withdrawal pays out.
fn payout_values(tx: &Transaction) -> (r: Vec<u64>)
    ensures
        r@ == payouts(*tx),
{
    let mut values: Vec<u64> = Vec::new();
    let mut i: usize = 1;
    while i < tx.output.len()
        invariant
            1 <= i,
            if tx.output@.len() > 0 {
                i <= tx.output@.len()
            } else {
                i == 1
            },
            values@.len() == i - 1,
            forall|j: int| 0 <= j < i - 1 ==> #[trigger] values@[j] == tx.output@[j + 1].value,
        decreases tx.output@.len() - i,
    {
        values.push(tx.output[i].value);
        i = i + 1;
    }
    assert(values@ =~= payouts(*tx));
    values
}

/// The transitions of the bundles that failed.
fn failed_transitions(
    height: u32,
    failed: &Vec<(SidechainNumber, Vec<(M6id, PendingM6idInfo)>)>,
) -> (r: Vec<TreasuryTransition>)
    ensures
        views(r@) == failed_in_order(failed@).map_values(
            |entry: (SidechainNumber, M6id, PendingM6idInfo)| failed_transition(height, entry),
        ),
{
    broadcast use views_push;

    let entries = flatten_failed(failed);
    let ordered = sort(&entries);
    proof {
        assert(items(entries@) =~= entries@);
        assert(items(ordered@) =~= ordered@);
    }
    let ghost f = |entry: (SidechainNumber, M6id, PendingM6idInfo)|
        failed_transition(height, entry);
    let mut out: Vec<TreasuryTransition> = Vec::new();
    for i in 0..ordered.len()
        invariant
            forall|e: (SidechainNumber, M6id, PendingM6idInfo)| #[trigger]
                f(e) == failed_transition(height, e),
            views(out@) == ordered@.take(i as int).map_values(f),
    {
        let (n, m6id, info) = ordered[i];
        let ghost before = views(out@);
        let transition = TreasuryTransition {
            kind: TransitionKind::WithdrawalFailed,
            sidechain_number: n.0 as u32,
            previous_ctip: None,
            new_ctip: None,
            sequence_number: None,
            delta_sats: None,
            payout_sats: None,
            fee_sats: None,
            m6id: Some(ConsensusHex::encode_hash(&m6id)),
            sidechain_address: None,
            transaction: None,
            proposal_height: Some(info.proposal_height),
            terminal_height: Some(height),
        };
        assert(transition@ == f(ordered@[i as int]));
        out.push(transition);
        assert(views(out@) == before.push(f(ordered@[i as int])));
        assert(views(out@) =~= ordered@.take(i + 1).map_values(f));
    }
    assert(ordered@.take(ordered@.len() as int) =~= ordered@);
    out
}

/// The bundles that failed, with their sidechains.
fn flatten_failed(
    failed: &Vec<(SidechainNumber, Vec<(M6id, PendingM6idInfo)>)>,
) -> (r: Vec<(SidechainNumber, M6id, PendingM6idInfo)>)
    ensures
        r@ == failed_entries(failed@),
{
    let ghost f = |entry: (SidechainNumber, Vec<(M6id, PendingM6idInfo)>)|
        entry.1@.map_values(|bundle: (M6id, PendingM6idInfo)| (entry.0, bundle.0, bundle.1));
    let mut out: Vec<(SidechainNumber, M6id, PendingM6idInfo)> = Vec::new();
    assert(failed@.take(0).map_values(f) =~= Seq::empty());
    for i in 0..failed.len()
        invariant
            f == (|entry: (SidechainNumber, Vec<(M6id, PendingM6idInfo)>)|
                entry.1@.map_values(
                    |bundle: (M6id, PendingM6idInfo)| (entry.0, bundle.0, bundle.1),
                )),
            out@ == failed@.take(i as int).flat_map(f),
    {
        let ghost before = out@;
        let n = failed[i].0;
        let bundles = &failed[i].1;
        for j in 0..bundles.len()
            invariant
                i < failed@.len(),
                n == failed@[i as int].0,
                *bundles == failed@[i as int].1,
                out@ == before + failed@[i as int].1@.take(j as int).map_values(
                    |bundle: (M6id, PendingM6idInfo)| (n, bundle.0, bundle.1),
                ),
        {
            let (m6id, info) = bundles[j];
            out.push((n, m6id, info));
            assert(out@ =~= before + failed@[i as int].1@.take(j + 1).map_values(
                |bundle: (M6id, PendingM6idInfo)| (n, bundle.0, bundle.1),
            ));
        }
        proof {
            assert(bundles@.take(bundles@.len() as int) =~= bundles@);
            assert(out@ =~= before + f(failed@[i as int]));
            failed@.lemma_flat_map_take_append(f, i as int);
        }
    }
    assert(failed@.take(failed@.len() as int) =~= failed@);
    out
}

} // verus!
