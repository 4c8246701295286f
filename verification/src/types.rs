//! What the validator knows of blocks, sidechains and their treasuries.
//!
//! The validator keeps much of this in maps keyed by sidechain. Here a map is a
//! list of entries in whatever order it was walked; [`lookup`] finds the entry of
//! a sidechain.
use vstd::prelude::*;

verus! {

/// A 256-bit hash, in the byte order in which it is hashed and serialised.
#[derive(Clone, Copy, Debug, PartialEq, Eq)]
pub struct Hash256(pub [u8; 32]);

/// The hash of a block header.
pub type BlockHash = Hash256;

/// The hash of a transaction without its witnesses.
pub type Txid = Hash256;

/// The identifier of a withdrawal bundle.
pub type M6id = Hash256;

impl View for Hash256 {
    type V = Seq<u8>;

    open spec fn view(&self) -> Seq<u8> {
        self.0@
    }
}

impl Hash256 {
    /// Whether two hashes are equal.
    pub fn same(&self, other: &Hash256) -> (r: bool)
        ensures
            r == (*self == *other),
            r == (self@ == other@),
    {
        for i in 0..32usize
            invariant
                forall|j: int| 0 <= j < i ==> self.0@[j] == other.0@[j],
        {
            if self.0[i] != other.0[i] {
                return false;
            }
        }
        assert(self.0 =~= other.0);
        true
    }
}

/// The slot of a sidechain.
#[derive(Clone, Copy, Debug, PartialEq, Eq, Structural)]
pub struct SidechainNumber(pub u8);

/// A transaction output by its place.
#[derive(Clone, Copy, Debug, PartialEq, Eq)]
pub struct OutPoint {
    pub txid: Txid,
    pub vout: u32,
}

impl OutPoint {
    /// Whether two outpoints are equal.
    pub fn same(&self, other: &OutPoint) -> (r: bool)
        ensures
            r == (*self == *other),
    {
        self.vout == other.vout && self.txid.same(&other.txid)
    }
}

/// A transaction input.
#[derive(Debug, PartialEq, Eq)]
pub struct TxIn {
    pub previous_output: OutPoint,
    pub script_sig: Vec<u8>,
    pub sequence: u32,
    pub witness: Vec<Vec<u8>>,
}

/// A transaction output. The value is in satoshis.
#[derive(Debug, PartialEq, Eq)]
pub struct TxOut {
    pub value: u64,
    pub script_pubkey: Vec<u8>,
}

/// A transaction.
#[derive(Debug, PartialEq, Eq)]
pub struct Transaction {
    pub version: i32,
    pub lock_time: u32,
    pub input: Vec<TxIn>,
    pub output: Vec<TxOut>,
}

/// A transaction input as mathematical values.
#[verifier::ext_equal]
pub struct TxInView {
    pub previous_output: OutPoint,
    pub script_sig: Seq<u8>,
    pub sequence: u32,
    pub witness: Seq<Seq<u8>>,
}

/// A transaction output as mathematical values.
#[verifier::ext_equal]
pub struct TxOutView {
    pub value: u64,
    pub script_pubkey: Seq<u8>,
}

/// A transaction as mathematical values.
#[verifier::ext_equal]
pub struct TransactionView {
    pub version: i32,
    pub lock_time: u32,
    pub input: Seq<TxInView>,
    pub output: Seq<TxOutView>,
}

impl View for TxIn {
    type V = TxInView;

    open spec fn view(&self) -> TxInView {
        TxInView {
            previous_output: self.previous_output,
            script_sig: self.script_sig@,
            sequence: self.sequence,
            witness: self.witness@.map_values(|w: Vec<u8>| w@),
        }
    }
}

impl View for TxOut {
    type V = TxOutView;

    open spec fn view(&self) -> TxOutView {
        TxOutView { value: self.value, script_pubkey: self.script_pubkey@ }
    }
}

impl View for Transaction {
    type V = TransactionView;

    open spec fn view(&self) -> TransactionView {
        TransactionView {
            version: self.version,
            lock_time: self.lock_time,
            input: self.input@.map_values(|i: TxIn| i@),
            output: self.output@.map_values(|o: TxOut| o@),
        }
    }
}

/// The number of bytes of a compact size that holds `n`.
pub open spec fn compact_size_len(n: nat) -> nat {
    if n <= 0xfc {
        1
    } else if n <= 0xffff {
        3
    } else if n <= 0xffff_ffff {
        5
    } else {
        9
    }
}

/// The number of bytes that witness items take up one behind the other, each
/// behind its length.
pub open spec fn witness_len(items: Seq<Vec<u8>>) -> nat
    decreases items.len(),
{
    if items.len() == 0 {
        0
    } else {
        witness_len(items.drop_last()) + compact_size_len(items.last()@.len())
            + items.last()@.len()
    }
}

impl TxIn {
    /// Every witness item starts at an offset that fits in 32 bits, as
    /// serialised witnesses have it.
    pub open spec fn encodable(&self) -> bool {
        self.witness@.len() > 0 ==> witness_len(self.witness@.drop_last()) <= u32::MAX
    }

    /// Whether every witness item starts at an offset that fits in 32 bits.
    pub fn is_encodable(&self) -> (r: bool)
        ensures
            r == self.encodable(),
    {
        if self.witness.len() == 0 {
            return true;
        }
        let mut total: u64 = 0;
        let last: usize = self.witness.len() - 1;
        for i in 0..last
            invariant
                last == self.witness@.len() - 1,
                total == witness_len(self.witness@.take(i as int)),
                total <= u32::MAX,
        {
            let n: usize = self.witness[i].len();
            let prefix: u64 = if n <= 0xfc {
                1
            } else if n <= 0xffff {
                3
            } else if n <= 0xffff_ffff {
                5
            } else {
                9
            };
            proof {
                let next = self.witness@.take(i + 1);
                assert(next.drop_last() =~= self.witness@.take(i as int));
                assert(next.last()@.len() == n);
                lemma_witness_len_grows(self.witness@.drop_last(), i + 1);
                assert(self.witness@.drop_last().take(i + 1) =~= next);
            }
            if n > 0xffff_ffff || total + prefix + n as u64 > 0xffff_ffff {
                return false;
            }
            total = total + prefix + n as u64;
        }
        assert(self.witness@.take(last as int) =~= self.witness@.drop_last());
        true
    }
}

proof fn lemma_witness_len_grows(items: Seq<Vec<u8>>, k: int)
    requires
        0 <= k <= items.len(),
    ensures
        witness_len(items.take(k)) <= witness_len(items),
    decreases items.len(),
{
    if k == items.len() {
        assert(items.take(k) =~= items);
    } else {
        lemma_witness_len_grows(items.drop_last(), k);
        assert(items.drop_last().take(k) =~= items.take(k));
    }
}

impl Transaction {
    /// The witnesses of every input can be serialised.
    pub open spec fn encodable(&self) -> bool {
        forall|i: int| 0 <= i < self.input@.len() ==> (#[trigger] self.input@[i]).encodable()
    }

    /// Whether the witnesses of every input can be serialised.
    pub fn is_encodable(&self) -> (r: bool)
        ensures
            r == self.encodable(),
    {
        for i in 0..self.input.len()
            invariant
                forall|j: int| 0 <= j < i ==> (#[trigger] self.input@[j]).encodable(),
        {
            if !self.input[i].is_encodable() {
                return false;
            }
        }
        true
    }
}

/// A block header.
#[derive(Clone, Copy, Debug, PartialEq, Eq)]
pub struct BlockHeader {
    pub version: i32,
    pub prev_blockhash: BlockHash,
    pub merkle_root: Hash256,
    pub time: u32,
    pub bits: u32,
    pub nonce: u32,
}

/// A block. The first transaction is the coinbase.
#[derive(Debug, PartialEq, Eq)]
pub struct Block {
    pub header: BlockHeader,
    pub txdata: Vec<Transaction>,
}

impl Block {
    /// Every transaction of the block can be serialised.
    pub open spec fn encodable(&self) -> bool {
        forall|i: int| 0 <= i < self.txdata@.len() ==> (#[trigger] self.txdata@[i]).encodable()
    }

    /// Whether every transaction of the block can be serialised.
    pub fn is_encodable(&self) -> (r: bool)
        ensures
            r == self.encodable(),
    {
        for i in 0..self.txdata.len()
            invariant
                forall|j: int| 0 <= j < i ==> (#[trigger] self.txdata@[j]).encodable(),
        {
            if !self.txdata[i].is_encodable() {
                return false;
            }
        }
        true
    }
}

/// The output that holds the treasury of a sidechain. The value is in satoshis.
#[derive(Clone, Copy, Debug, PartialEq, Eq)]
pub struct Ctip {
    pub outpoint: OutPoint,
    pub value: u64,
}

/// A treasury output out of the history of a sidechain. The value is in satoshis.
#[derive(Clone, Copy, Debug, PartialEq, Eq)]
pub struct TreasuryUtxo {
    pub outpoint: OutPoint,
    pub total_value: u64,
}

/// A block header as the validator reports it. `wire` is the form in which it
/// goes out to clients; nothing here looks inside.
#[derive(Debug, PartialEq, Eq)]
pub struct HeaderInfo<H> {
    pub block_hash: BlockHash,
    pub height: u32,
    pub wire: H,
}

/// What identifies a proposed sidechain.
#[derive(Clone, Copy, Debug, PartialEq, Eq)]
pub struct SidechainProposalId {
    pub sidechain_number: SidechainNumber,
    pub description_hash: Hash256,
}

impl SidechainProposalId {
    /// Whether two identifiers are equal.
    pub fn same(&self, other: &SidechainProposalId) -> (r: bool)
        ensures
            r == (*self == *other),
    {
        self.sidechain_number == other.sidechain_number && self.description_hash.same(
            &other.description_hash,
        )
    }
}

/// A proposed sidechain.
#[derive(Debug, PartialEq, Eq)]
pub struct SidechainProposal {
    pub sidechain_number: SidechainNumber,
    pub description: Vec<u8>,
}

/// Votes on a sidechain.
#[derive(Clone, Copy, Debug, PartialEq, Eq)]
pub struct SidechainStatus {
    pub vote_count: u16,
    pub proposal_height: u32,
}

/// A sidechain with the votes on it. `declaration` is what its description
/// declares, where it declares anything.
#[derive(Debug, PartialEq, Eq)]
pub struct Sidechain<D> {
    pub proposal: SidechainProposal,
    pub status: SidechainStatus,
    pub declaration: Option<D>,
}

/// A deposit into a sidechain. The value is in satoshis.
#[derive(Debug, PartialEq, Eq)]
pub struct Deposit {
    pub sequence_number: u64,
    pub outpoint: OutPoint,
    pub value: u64,
    pub address: Vec<u8>,
}

/// Votes on a withdrawal bundle.
#[derive(Clone, Copy, Debug, PartialEq, Eq)]
pub struct PendingM6idInfo {
    pub vote_count: u16,
    pub proposal_height: u32,
}

/// What became of a withdrawal bundle.
#[derive(Debug, PartialEq, Eq)]
pub enum WithdrawalBundleEventKind {
    Submitted,
    Failed,
    Succeeded { sequence_number: u64, transaction: Transaction },
}

/// A step in the life of a withdrawal bundle.
#[derive(Debug, PartialEq, Eq)]
pub struct WithdrawalBundleEvent {
    pub sidechain_id: SidechainNumber,
    pub m6id: M6id,
    pub kind: WithdrawalBundleEventKind,
}

/// Something that happened to sidechains in a block.
#[derive(Debug, PartialEq, Eq)]
pub enum BlockEvent {
    Deposits(Vec<(SidechainNumber, Deposit)>),
    SidechainProposal { vout: u32, proposal: SidechainProposal },
    WithdrawalBundle(WithdrawalBundleEvent),
}

/// What the validator recorded of a block.
#[derive(Debug, PartialEq, Eq)]
pub struct BlockInfo {
    pub events: Vec<BlockEvent>,
    pub bmm_commitments: Vec<(SidechainNumber, Hash256)>,
    pub coinbase_txid: Txid,
}

impl BlockInfo {
    /// Every transaction in the block's events can be serialised.
    pub open spec fn encodable(&self) -> bool {
        forall|i: int|
            #![trigger self.events@[i]]
            0 <= i < self.events@.len() ==> match self.events@[i] {
                BlockEvent::WithdrawalBundle(event) => match event.kind {
                    WithdrawalBundleEventKind::Succeeded { transaction, .. } =>
                        transaction.encodable(),
                    _ => true,
                },
                _ => true,
            }
    }

    /// Whether every transaction in the block's events can be serialised.
    pub fn is_encodable(&self) -> (r: bool)
        ensures
            r == self.encodable(),
    {
        for i in 0..self.events.len()
            invariant
                forall|j: int|
                    #![trigger self.events@[j]]
                    0 <= j < i ==> match self.events@[j] {
                        BlockEvent::WithdrawalBundle(event) => match event.kind {
                            WithdrawalBundleEventKind::Succeeded { transaction, .. } =>
                                transaction.encodable(),
                            _ => true,
                        },
                        _ => true,
                    },
        {
            if let BlockEvent::WithdrawalBundle(event) = &self.events[i] {
                if let WithdrawalBundleEventKind::Succeeded { transaction, .. } = &event.kind {
                    if !transaction.is_encodable() {
                        return false;
                    }
                }
            }
        }
        true
    }
}

/// What an acknowledged sidechain proposal led to.
#[derive(Clone, Copy, Debug, PartialEq, Eq)]
pub enum BlockAckSidechainProposalEffect {
    NoActivation,
    SlotActivation,
    ReplaceActive,
}

/// What the votes of a block did to the bundles of one sidechain.
#[derive(Debug, PartialEq, Eq)]
pub enum BlockAckBundleAction {
    Alarm { positive_votes_proposals: Vec<M6id> },
    Upvote { m6id: M6id, downvoted_others: Vec<M6id> },
}

/// A change that a coinbase message made.
#[derive(Debug, PartialEq, Eq)]
pub enum BlockCoinbaseMsg {
    ProposeSidechain(SidechainProposalId),
    AckSidechainProposal { id: SidechainProposalId, effect: BlockAckSidechainProposalEffect },
    ProposeBundle { sidechain_number: SidechainNumber, m6id: M6id },
    AckBundles(Vec<(SidechainNumber, BlockAckBundleAction)>),
}

/// The changes that the coinbase of a block made.
#[derive(Debug, PartialEq, Eq)]
pub struct BlockCoinbaseDiff {
    pub msgs: Vec<BlockCoinbaseMsg>,
    pub failed_m6ids: Vec<(SidechainNumber, Vec<(M6id, PendingM6idInfo)>)>,
}

/// A change that a transaction made to treasuries.
#[derive(Debug, PartialEq, Eq)]
pub enum BlockTx {
    M5 { new_ctips: Vec<(SidechainNumber, Ctip)> },
    M6 {
        sidechain_number: SidechainNumber,
        new_ctip: Ctip,
        removed_pending_withdrawal: M6id,
        removed_pending_withdrawal_info: PendingM6idInfo,
    },
}

/// The changes that a block made to the validator's state.
#[derive(Debug, PartialEq, Eq)]
pub struct BlockDiff {
    pub coinbase: BlockCoinbaseDiff,
    pub txs: Vec<BlockTx>,
}

/// The first entry of sidechain `n`.
pub open spec fn lookup<V>(map: Seq<(SidechainNumber, V)>, n: SidechainNumber) -> Option<V>
    decreases map.len(),
{
    if map.len() == 0 {
        None
    } else if map[0].0 == n {
        Some(map[0].1)
    } else {
        lookup(map.drop_first(), n)
    }
}

/// Finds the first entry of sidechain `n`.
pub fn find_entry<V>(map: &Vec<(SidechainNumber, V)>, n: SidechainNumber) -> (r: Option<&V>)
    ensures
        match r {
            Some(v) => lookup(map@, n) == Some(*v),
            None => lookup(map@, n) is None,
        },
{
    assert(map@.skip(0) =~= map@);
    for i in 0..map.len()
        invariant
            lookup(map@, n) == lookup(map@.skip(i as int), n),
    {
        assert(map@.skip(i as int).drop_first() =~= map@.skip(i + 1));
        if map[i].0 == n {
            return Some(&map[i].1);
        }
    }
    None
}

/// Every sidechain has one entry at most, as in a map.
pub open spec fn distinct_sidechains<V>(map: Seq<(SidechainNumber, V)>) -> bool {
    forall|i: int, j: int|
        #![trigger map[i], map[j]]
        0 <= i < map.len() && 0 <= j < map.len() && i != j ==> map[i].0 != map[j].0
}

/// A lookup finds the entry of a sidechain where it has one, and nothing only
/// where it has none.
pub proof fn lookup_is_an_entry<V>(map: Seq<(SidechainNumber, V)>, n: SidechainNumber)
    ensures
        match lookup(map, n) {
            Some(v) => map.contains((n, v)),
            None => forall|i: int| #![trigger map[i]] 0 <= i < map.len() ==> map[i].0 != n,
        },
    decreases map.len(),
{
    if map.len() > 0 {
        if map[0].0 == n {
            assert(map[0] == (n, map[0].1));
        } else {
            let rest = map.drop_first();
            lookup_is_an_entry(rest, n);
            match lookup(rest, n) {
                Some(v) => {
                    let i = choose|i: int| 0 <= i < rest.len() && rest[i] == (n, v);
                    assert(map[i + 1] == (n, v));
                },
                None => {
                    assert forall|i: int| #![trigger map[i]] 0 <= i < map.len() implies map[i].0
                        != n by {
                        if i > 0 {
                            assert(rest[i - 1] == map[i]);
                        }
                    }
                },
            }
        }
    }
}

/// Where every sidechain has one entry at most, a lookup does not depend on the
/// order in which a map was walked.
pub proof fn lookup_ignores_order<V>(
    a: Seq<(SidechainNumber, V)>,
    b: Seq<(SidechainNumber, V)>,
    n: SidechainNumber,
)
    requires
        distinct_sidechains(a),
        a.to_multiset() == b.to_multiset(),
    ensures
        lookup(a, n) == lookup(b, n),
{
    a.to_multiset_ensures();
    b.to_multiset_ensures();
    lookup_is_an_entry(a, n);
    lookup_is_an_entry(b, n);
    match (lookup(a, n), lookup(b, n)) {
        (Some(v), Some(w)) => {
            assert(b.to_multiset().count((n, w)) > 0);
            assert(a.contains((n, w)));
            let i = choose|i: int| 0 <= i < a.len() && a[i] == (n, v);
            let j = choose|j: int| 0 <= j < a.len() && a[j] == (n, w);
            assert(a[i].0 == a[j].0);
        },
        (Some(v), None) => {
            assert(a.to_multiset().count((n, v)) > 0);
            assert(b.contains((n, v)));
        },
        (None, Some(w)) => {
            assert(b.to_multiset().count((n, w)) > 0);
            assert(a.contains((n, w)));
        },
        (None, None) => {},
    }
}

/// Where a sidechain has entries, a lookup finds the first of them.
pub proof fn lookup_is_the_first_entry<V>(map: Seq<(SidechainNumber, V)>, i: int)
    requires
        0 <= i < map.len(),
        forall|j: int| #![trigger map[j]] 0 <= j < i ==> map[j].0 != map[i].0,
    ensures
        lookup(map, map[i].0) == Some(map[i].1),
    decreases map.len(),
{
    if i > 0 {
        assert(map[0].0 != map[i].0);
        let rest = map.drop_first();
        assert(rest[i - 1] == map[i]);
        assert forall|j: int| #![trigger rest[j]] 0 <= j < i - 1 implies rest[j].0 != rest[i
            - 1].0 by {
            assert(rest[j] == map[j + 1]);
        }
        lookup_is_the_first_entry(rest, i - 1);
    }
}

/// The witness items of an input can be serialised exactly where the bytes before
/// each of them number no more than 32 bits can count.
pub proof fn encodable_inputs_count_in_32_bits(input: TxIn)
    ensures
        input.encodable() <==> forall|k: int|
            #![trigger input.witness@.take(k)]
            0 <= k < input.witness@.len() ==> witness_len(input.witness@.take(k)) <= u32::MAX,
{
    let items = input.witness@;
    if items.len() > 0 {
        let last = items.len() - 1;
        assert(items.take(last) =~= items.drop_last());
        assert forall|k: int|
            #![trigger items.take(k)]
            0 <= k < items.len() implies witness_len(items.take(k)) <= witness_len(
            items.take(last),
        ) by {
            lemma_witness_len_grows(items.drop_last(), k);
            assert(items.drop_last().take(k) =~= items.take(k));
        }
    }
}

/// Witness items take up their own bytes and the one, three, five or nine bytes of
/// their length.
pub proof fn witness_items_take_up_room(items: Seq<Vec<u8>>, item: Vec<u8>)
    ensures
        witness_len(Seq::<Vec<u8>>::empty()) == 0,
        witness_len(items.push(item)) == witness_len(items) + item@.len() + (if item@.len() <= 252 {
            1int
        } else if item@.len() <= 0xffff {
            3
        } else if item@.len() <= 0xffff_ffff {
            5
        } else {
            9
        }),
{
    assert(items.push(item).drop_last() =~= items);
}

/// A transaction, a block and a block's record can be serialised exactly where every
/// input in them can.
pub proof fn encodable_means_every_input(tx: Transaction, block: Block, info: BlockInfo)
    ensures
        tx.encodable() <==> forall|i: int|
            #![trigger tx.input@[i]]
            0 <= i < tx.input@.len() ==> tx.input@[i].encodable(),
        block.encodable() <==> forall|i: int|
            #![trigger block.txdata@[i]]
            0 <= i < block.txdata@.len() ==> block.txdata@[i].encodable(),
        info.encodable() <==> forall|i: int|
            #![trigger info.events@[i]]
            0 <= i < info.events@.len() ==> (info.events@[i] matches BlockEvent::WithdrawalBundle(
                event,
            ) ==> (event.kind matches WithdrawalBundleEventKind::Succeeded { transaction, .. }
                ==> transaction.encodable())),
{
}

} // verus!
