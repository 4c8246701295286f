//! Messages about sidechains in the outputs of transactions.
use vstd::prelude::*;

use crate::types::{BlockHash, Hash256, SidechainNumber, Txid};

verus! {

/// Proposes a sidechain.
#[derive(Debug, PartialEq, Eq)]
pub struct M1ProposeSidechain {
    pub sidechain_number: SidechainNumber,
    pub description: Vec<u8>,
}

/// Votes for a proposed sidechain.
#[derive(Clone, Copy, Debug, PartialEq, Eq)]
pub struct M2AckSidechain {
    pub sidechain_number: SidechainNumber,
    pub description_hash: Hash256,
}

/// Proposes a withdrawal bundle.
#[derive(Clone, Copy, Debug, PartialEq, Eq)]
pub struct M3ProposeBundle {
    pub sidechain_number: SidechainNumber,
    pub bundle_txid: Txid,
}

/// Votes on withdrawal bundles.
#[derive(Debug, PartialEq, Eq)]
pub enum M4AckBundles {
    RepeatPrevious,
    OneByte { upvotes: Vec<u8> },
    TwoBytes { upvotes: Vec<u16> },
    LeadingBy50,
}

/// Commits to a sidechain block.
#[derive(Clone, Copy, Debug, PartialEq, Eq)]
pub struct M7BmmAccept {
    pub sidechain_number: SidechainNumber,
    pub sidechain_block_hash: Hash256,
}

/// A message in a coinbase output.
#[derive(Debug, PartialEq, Eq)]
pub enum CoinbaseMessage {
    M1ProposeSidechain(M1ProposeSidechain),
    M2AckSidechain(M2AckSidechain),
    M3ProposeBundle(M3ProposeBundle),
    M4AckBundles(M4AckBundles),
    M7BmmAccept(M7BmmAccept),
}

/// Something that a coinbase output can say.
pub trait IntoMessage: Sized {
    /// What it says.
    spec fn message(self) -> CoinbaseMessage;

    /// What it says.
    fn into_message(self) -> (r: CoinbaseMessage)
        ensures
            r == self.message(),
    ;
}

impl IntoMessage for M1ProposeSidechain {
    open spec fn message(self) -> CoinbaseMessage {
        CoinbaseMessage::M1ProposeSidechain(self)
    }

    fn into_message(self) -> (r: CoinbaseMessage) {
        CoinbaseMessage::M1ProposeSidechain(self)
    }
}

impl IntoMessage for M2AckSidechain {
    open spec fn message(self) -> CoinbaseMessage {
        CoinbaseMessage::M2AckSidechain(self)
    }

    fn into_message(self) -> (r: CoinbaseMessage) {
        CoinbaseMessage::M2AckSidechain(self)
    }
}

impl IntoMessage for M3ProposeBundle {
    open spec fn message(self) -> CoinbaseMessage {
        CoinbaseMessage::M3ProposeBundle(self)
    }

    fn into_message(self) -> (r: CoinbaseMessage) {
        CoinbaseMessage::M3ProposeBundle(self)
    }
}

/// Asks for a commitment to a sidechain block in the block that follows
/// `prev_mainchain_block_hash`.
#[derive(Clone, Copy, Debug, PartialEq, Eq)]
pub struct M8BmmRequest {
    pub sidechain_number: SidechainNumber,
    pub sidechain_block_hash: Hash256,
    pub prev_mainchain_block_hash: BlockHash,
}

/// A message that a script starts with, and the bytes behind it.
#[derive(Debug, PartialEq, Eq)]
pub struct ParsedScript {
    pub rest: Vec<u8>,
    pub message: CoinbaseMessage,
}

/// What the message parser made of a block: of each coinbase output, and of
/// each transaction as a request for blind merged mining.
#[derive(Debug, PartialEq, Eq)]
pub struct MessageReadings {
    pub coinbase: Vec<Option<ParsedScript>>,
    pub bmm_requests: Vec<Option<M8BmmRequest>>,
}

impl MessageReadings {
    /// What coinbase output `i` starts with.
    pub open spec fn output(&self, i: int) -> Option<ParsedScript> {
        if 0 <= i < self.coinbase@.len() {
            self.coinbase@[i]
        } else {
            None
        }
    }

    /// What transaction `i` asks for.
    pub open spec fn request(&self, i: int) -> Option<M8BmmRequest> {
        if 0 <= i < self.bmm_requests@.len() {
            self.bmm_requests@[i]
        } else {
            None
        }
    }

    /// What coinbase output `i` starts with.
    pub fn get_output(&self, i: usize) -> (r: Option<&ParsedScript>)
        ensures
            match r {
                Some(script) => self.output(i as int) == Some(*script),
                None => self.output(i as int) is None,
            },
    {
        if i < self.coinbase.len() {
            self.coinbase[i].as_ref()
        } else {
            None
        }
    }

    /// What transaction `i` asks for.
    pub fn get_request(&self, i: usize) -> (r: Option<M8BmmRequest>)
        ensures
            r == self.request(i as int),
    {
        if i < self.bmm_requests.len() {
            self.bmm_requests[i]
        } else {
            None
        }
    }
}

} // verus!
