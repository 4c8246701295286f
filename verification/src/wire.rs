//! What goes out to clients.
//!
//! Each message has a view in which text is a sequence of characters and a list
//! is a sequence.
use vstd::prelude::*;

use crate::chain::{compact_size, serialize_bytes, serialize_transaction, transaction_bytes};
use crate::error::{display_hash, hash_text};
use crate::order::{lex_le, Keyed};
use crate::text::{from_hex32, hex, to_hex, unhex32, unhex_of_hex};
use crate::types::{Hash256, Transaction, TransactionView};

verus! {

/// What a sequence of messages says, one by one.
pub open spec fn views<T: View>(s: Seq<T>) -> Seq<T::V> {
    s.map_values(|x: T| x@)
}

/// One more message says one more thing.
pub broadcast proof fn views_push<T: View>(s: Seq<T>, x: T)
    ensures
        #[trigger] views(s.push(x)) == views(s).push(x@),
{
    assert(views(s.push(x)) =~= views(s).push(x@));
}

/// What an optional message says.
pub open spec fn opt_view<T: View>(x: Option<T>) -> Option<T::V> {
    match x {
        Some(v) => Some(v@),
        None => None,
    }
}

/// What a fallible list of messages says.
pub open spec fn outcome<T: View, E>(r: Result<Vec<T>, E>) -> Result<Seq<T::V>, E> {
    match r {
        Ok(v) => Ok(views(v@)),
        Err(e) => Err(e),
    }
}

/// A hash in hexadecimal, the last byte first.
#[derive(Debug, PartialEq, Eq)]
pub struct ReverseHex {
    pub hex: String,
}

/// A consensus serialisation in hexadecimal.
#[derive(Debug, PartialEq, Eq)]
pub struct ConsensusHex {
    pub hex: String,
}

/// Bytes in hexadecimal.
#[derive(Debug, PartialEq, Eq)]
pub struct Hex {
    pub hex: String,
}

impl View for ReverseHex {
    type V = Seq<char>;

    open spec fn view(&self) -> Seq<char> {
        self.hex@
    }
}

impl View for ConsensusHex {
    type V = Seq<char>;

    open spec fn view(&self) -> Seq<char> {
        self.hex@
    }
}

impl View for Hex {
    type V = Seq<char>;

    open spec fn view(&self) -> Seq<char> {
        self.hex@
    }
}

/// The hash that reversed hexadecimal text stands for, if it stands for one.
pub open spec fn undisplay_hash(text: Seq<char>) -> Option<Seq<u8>> {
    match unhex32(text) {
        Some(bytes) => Some(bytes.reverse()),
        None => None,
    }
}

/// A hash as consensus serialises it: its bytes as they are.
pub open spec fn hash_hex(h: Hash256) -> Seq<char> {
    hex(h@)
}

/// Bytes as consensus serialises them: behind their length.
pub open spec fn bytes_hex(bytes: Seq<u8>) -> Seq<char> {
    hex(compact_size(bytes.len()) + bytes)
}

/// A transaction as consensus serialises it.
pub open spec fn transaction_hex(tx: TransactionView) -> Seq<char> {
    hex(transaction_bytes(tx))
}

/// Reversed hexadecimal text of a hash reads back as that hash.
pub proof fn reverse_hex_round_trip(h: Hash256)
    ensures
        undisplay_hash(display_hash(h)) == Some(h@),
{
    unhex_of_hex(h@.reverse());
    assert(h@.reverse().reverse() =~= h@);
}

/// Different hashes go out as different text.
pub proof fn reverse_hex_is_injective(a: Hash256, b: Hash256)
    requires
        display_hash(a) == display_hash(b),
    ensures
        a == b,
{
    reverse_hex_round_trip(a);
    reverse_hex_round_trip(b);
    assert(a.0 =~= b.0);
}

impl ReverseHex {
    /// Writes a hash.
    pub fn encode(h: &Hash256) -> (r: ReverseHex)
        ensures
            r@ == display_hash(*h),
    {
        ReverseHex { hex: hash_text(h) }
    }

    /// Reads a hash.
    pub fn decode(&self) -> (r: Option<Hash256>)
        ensures
            match r {
                Some(h) => undisplay_hash(self@) == Some(h@),
                None => undisplay_hash(self@) is None,
            },
    {
        match from_hex32(self.hex.as_str()) {
            Some(bytes) => {
                let mut reversed: [u8; 32] = [0; 32];
                for i in 0..32usize
                    invariant
                        forall|j: int| 0 <= j < i ==> #[trigger] reversed@[j] == bytes@[31 - j],
                {
                    reversed[i] = bytes[31 - i];
                }
                assert(reversed@ =~= bytes@.reverse());
                Some(Hash256(reversed))
            },
            None => None,
        }
    }
}

impl ConsensusHex {
    /// Writes a hash.
    pub fn encode_hash(h: &Hash256) -> (r: ConsensusHex)
        ensures
            r@ == hash_hex(*h),
    {
        ConsensusHex { hex: to_hex(&h.0) }
    }

    /// Writes bytes.
    pub fn encode_bytes(bytes: &Vec<u8>) -> (r: ConsensusHex)
        ensures
            r@ == bytes_hex(bytes@),
    {
        ConsensusHex { hex: to_hex(serialize_bytes(bytes).as_slice()) }
    }

    /// Writes a transaction.
    pub fn encode_transaction(tx: &Transaction) -> (r: ConsensusHex)
        requires
            tx.encodable(),
        ensures
            r@ == transaction_hex(tx@),
    {
        ConsensusHex { hex: to_hex(serialize_transaction(tx).as_slice()) }
    }

    /// Writes each of a list of hashes.
    pub fn encode_hashes(hashes: &Vec<Hash256>) -> (r: Vec<ConsensusHex>)
        ensures
            views(r@) == hashes@.map_values(|h: Hash256| hash_hex(h)),
    {
        broadcast use views_push;

        let mut out: Vec<ConsensusHex> = Vec::new();
        for i in 0..hashes.len()
            invariant
                views(out@) == hashes@.take(i as int).map_values(|h: Hash256| hash_hex(h)),
        {
            let ghost before = views(out@);
            out.push(ConsensusHex::encode_hash(&hashes[i]));
            assert(views(out@) == before.push(hash_hex(hashes@[i as int])));
            assert(views(out@) =~= hashes@.take(i + 1).map_values(|h: Hash256| hash_hex(h)));
        }
        assert(hashes@.take(hashes@.len() as int) =~= hashes@);
        out
    }
}

impl Hex {
    /// Writes bytes.
    pub fn encode(bytes: &Vec<u8>) -> (r: Hex)
        ensures
            r@ == hex(bytes@),
    {
        Hex { hex: to_hex(bytes.as_slice()) }
    }
}

/// A treasury output.
#[derive(Debug, PartialEq, Eq)]
pub struct TreasuryCtip {
    pub txid: ReverseHex,
    pub vout: u32,
    pub value_sats: u64,
}

/// View of [`TreasuryCtip`].
pub struct TreasuryCtipView {
    pub txid: Seq<char>,
    pub vout: u32,
    pub value_sats: u64,
}

impl View for TreasuryCtip {
    type V = TreasuryCtipView;

    open spec fn view(&self) -> TreasuryCtipView {
        TreasuryCtipView { txid: self.txid@, vout: self.vout, value_sats: self.value_sats }
    }
}

/// What moved a treasury, or failed to.
#[derive(Clone, Copy, Debug, PartialEq, Eq)]
pub enum TransitionKind {
    Deposit,
    WithdrawalSucceeded,
    WithdrawalFailed,
}

/// A change to the treasury of a sidechain. Amounts are in satoshis.
#[derive(Debug, PartialEq, Eq)]
pub struct TreasuryTransition {
    pub kind: TransitionKind,
    pub sidechain_number: u32,
    pub previous_ctip: Option<TreasuryCtip>,
    pub new_ctip: Option<TreasuryCtip>,
    pub sequence_number: Option<u64>,
    pub delta_sats: Option<u64>,
    pub payout_sats: Option<u64>,
    pub fee_sats: Option<u64>,
    pub m6id: Option<ConsensusHex>,
    pub sidechain_address: Option<Hex>,
    pub transaction: Option<ConsensusHex>,
    pub proposal_height: Option<u32>,
    pub terminal_height: Option<u32>,
}

/// View of [`TreasuryTransition`].
pub struct TreasuryTransitionView {
    pub kind: TransitionKind,
    pub sidechain_number: u32,
    pub previous_ctip: Option<TreasuryCtipView>,
    pub new_ctip: Option<TreasuryCtipView>,
    pub sequence_number: Option<u64>,
    pub delta_sats: Option<u64>,
    pub payout_sats: Option<u64>,
    pub fee_sats: Option<u64>,
    pub m6id: Option<Seq<char>>,
    pub sidechain_address: Option<Seq<char>>,
    pub transaction: Option<Seq<char>>,
    pub proposal_height: Option<u32>,
    pub terminal_height: Option<u32>,
}

impl View for TreasuryTransition {
    type V = TreasuryTransitionView;

    open spec fn view(&self) -> TreasuryTransitionView {
        TreasuryTransitionView {
            kind: self.kind,
            sidechain_number: self.sidechain_number,
            previous_ctip: opt_view(self.previous_ctip),
            new_ctip: opt_view(self.new_ctip),
            sequence_number: self.sequence_number,
            delta_sats: self.delta_sats,
            payout_sats: self.payout_sats,
            fee_sats: self.fee_sats,
            m6id: opt_view(self.m6id),
            sidechain_address: opt_view(self.sidechain_address),
            transaction: opt_view(self.transaction),
            proposal_height: self.proposal_height,
            terminal_height: self.terminal_height,
        }
    }
}

/// How a block voted on the bundles of one sidechain.
#[derive(Clone, Copy, Debug, PartialEq, Eq)]
pub enum EffectAction {
    Alarm,
    Upvote,
}

/// What the votes of a block did to the bundles of one sidechain.
#[derive(Debug, PartialEq, Eq)]
pub struct M4Effect {
    pub sidechain_number: u32,
    pub action: EffectAction,
    pub upvoted_m6id: Option<ConsensusHex>,
    pub downvoted_m6ids: Vec<ConsensusHex>,
}

/// View of [`M4Effect`].
pub struct M4EffectView {
    pub sidechain_number: u32,
    pub action: EffectAction,
    pub upvoted_m6id: Option<Seq<char>>,
    pub downvoted_m6ids: Seq<Seq<char>>,
}

impl View for M4Effect {
    type V = M4EffectView;

    open spec fn view(&self) -> M4EffectView {
        M4EffectView {
            sidechain_number: self.sidechain_number,
            action: self.action,
            upvoted_m6id: opt_view(self.upvoted_m6id),
            downvoted_m6ids: views(self.downvoted_m6ids@),
        }
    }
}

impl Keyed for M4Effect {
    type Item = M4EffectView;

    open spec fn item(&self) -> M4EffectView {
        self@
    }

    open spec fn key(item: M4EffectView) -> Seq<int> {
        seq![item.sidechain_number as int]
    }

    fn key_le(&self, other: &Self) -> (r: bool) {
        proof {
            reveal_with_fuel(lex_le, 2);
        }
        self.sidechain_number <= other.sidechain_number
    }
}

/// The form of a vote on bundles.
#[derive(Clone, Copy, Debug, PartialEq, Eq)]
pub enum M4Mode {
    RepeatPrevious,
    OneByte,
    TwoBytes,
    LeadingBy50,
}

/// What a vote on a sidechain led to.
#[derive(Clone, Copy, Debug, PartialEq, Eq)]
pub enum M2Effect {
    RejectedOrNoop,
    NoActivation,
    SlotActivation,
    ReplaceActive,
}

/// A proposed sidechain.
#[derive(Debug, PartialEq, Eq)]
pub struct M1Delta {
    pub sidechain_number: u32,
    pub description: ConsensusHex,
    pub description_sha256d_hash: ReverseHex,
}

/// A vote on a sidechain.
#[derive(Debug, PartialEq, Eq)]
pub struct M2Delta {
    pub sidechain_number: u32,
    pub description_sha256d_hash: ReverseHex,
    pub effect: M2Effect,
}

/// A proposed withdrawal bundle.
#[derive(Debug, PartialEq, Eq)]
pub struct M3Delta {
    pub sidechain_number: u32,
    pub m6id: ConsensusHex,
}

/// A vote on withdrawal bundles.
#[derive(Debug, PartialEq, Eq)]
pub struct M4Delta {
    pub mode: M4Mode,
    pub raw_votes: Vec<u32>,
    pub effects: Vec<M4Effect>,
}

/// A commitment to a sidechain block.
#[derive(Debug, PartialEq, Eq)]
pub struct M7Delta {
    pub sidechain_number: u32,
    pub hstar: ConsensusHex,
}

/// A message of a coinbase output.
#[derive(Debug, PartialEq, Eq)]
pub enum Message {
    M1(M1Delta),
    M2(M2Delta),
    M3(M3Delta),
    M4(M4Delta),
    M7(M7Delta),
}

/// View of [`Message`].
pub enum MessageView {
    M1 { sidechain_number: u32, description: Seq<char>, description_sha256d_hash: Seq<char> },
    M2 { sidechain_number: u32, description_sha256d_hash: Seq<char>, effect: M2Effect },
    M3 { sidechain_number: u32, m6id: Seq<char> },
    M4 { mode: M4Mode, raw_votes: Seq<u32>, effects: Seq<M4EffectView> },
    M7 { sidechain_number: u32, hstar: Seq<char> },
}

impl View for Message {
    type V = MessageView;

    open spec fn view(&self) -> MessageView {
        match *self {
            Message::M1(m) => MessageView::M1 {
                sidechain_number: m.sidechain_number,
                description: m.description@,
                description_sha256d_hash: m.description_sha256d_hash@,
            },
            Message::M2(m) => MessageView::M2 {
                sidechain_number: m.sidechain_number,
                description_sha256d_hash: m.description_sha256d_hash@,
                effect: m.effect,
            },
            Message::M3(m) => MessageView::M3 {
                sidechain_number: m.sidechain_number,
                m6id: m.m6id@,
            },
            Message::M4(m) => MessageView::M4 {
                mode: m.mode,
                raw_votes: m.raw_votes@,
                effects: views(m.effects@),
            },
            Message::M7(m) => MessageView::M7 {
                sidechain_number: m.sidechain_number,
                hstar: m.hstar@,
            },
        }
    }
}

/// A coinbase output that carries a message.
#[derive(Debug, PartialEq, Eq)]
pub struct Bip300CoinbaseMessage {
    pub vout: u32,
    pub raw_script_pubkey: Hex,
    pub accepted: bool,
    pub message: Message,
}

/// View of [`Bip300CoinbaseMessage`].
pub struct Bip300CoinbaseMessageView {
    pub vout: u32,
    pub raw_script_pubkey: Seq<char>,
    pub accepted: bool,
    pub message: MessageView,
}

impl View for Bip300CoinbaseMessage {
    type V = Bip300CoinbaseMessageView;

    open spec fn view(&self) -> Bip300CoinbaseMessageView {
        Bip300CoinbaseMessageView {
            vout: self.vout,
            raw_script_pubkey: self.raw_script_pubkey@,
            accepted: self.accepted,
            message: self.message@,
        }
    }
}

/// A request for blind merged mining that its block honoured.
#[derive(Debug, PartialEq, Eq)]
pub struct ConfirmedBmmRequest {
    pub sidechain_number: u32,
    pub txid: ReverseHex,
    pub transaction: ConsensusHex,
    pub hstar: ConsensusHex,
    pub previous_mainchain_block_hash: ReverseHex,
    pub fee_sats: Option<u64>,
}

/// View of [`ConfirmedBmmRequest`].
pub struct ConfirmedBmmRequestView {
    pub sidechain_number: u32,
    pub txid: Seq<char>,
    pub transaction: Seq<char>,
    pub hstar: Seq<char>,
    pub previous_mainchain_block_hash: Seq<char>,
    pub fee_sats: Option<u64>,
}

impl View for ConfirmedBmmRequest {
    type V = ConfirmedBmmRequestView;

    open spec fn view(&self) -> ConfirmedBmmRequestView {
        ConfirmedBmmRequestView {
            sidechain_number: self.sidechain_number,
            txid: self.txid@,
            transaction: self.transaction@,
            hstar: self.hstar@,
            previous_mainchain_block_hash: self.previous_mainchain_block_hash@,
            fee_sats: self.fee_sats,
        }
    }
}

/// Everything that a block did to sidechains.
#[derive(Debug, PartialEq, Eq)]
pub struct Bip300BlockDelta<H> {
    pub header_info: H,
    pub coinbase_txid: ReverseHex,
    pub coinbase_messages: Vec<Bip300CoinbaseMessage>,
    pub treasury_transitions: Vec<TreasuryTransition>,
    pub confirmed_bmm_requests: Vec<ConfirmedBmmRequest>,
}

/// View of [`Bip300BlockDelta`].
pub struct Bip300BlockDeltaView<H> {
    pub header_info: H,
    pub coinbase_txid: Seq<char>,
    pub coinbase_messages: Seq<Bip300CoinbaseMessageView>,
    pub treasury_transitions: Seq<TreasuryTransitionView>,
    pub confirmed_bmm_requests: Seq<ConfirmedBmmRequestView>,
}

impl<H> View for Bip300BlockDelta<H> {
    type V = Bip300BlockDeltaView<H>;

    open spec fn view(&self) -> Bip300BlockDeltaView<H> {
        Bip300BlockDeltaView {
            header_info: self.header_info,
            coinbase_txid: self.coinbase_txid@,
            coinbase_messages: views(self.coinbase_messages@),
            treasury_transitions: views(self.treasury_transitions@),
            confirmed_bmm_requests: views(self.confirmed_bmm_requests@),
        }
    }
}

} // verus!
