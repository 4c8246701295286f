//! Why a request is refused, and the code and text that the client gets.
use vstd::prelude::*;
use vstd::string::StringExecFns;

use crate::text::{decimal, hex, push_decimal, to_hex};
use crate::types::{BlockHash, Hash256, SidechainNumber, Txid};

verus! {

/// Most ancestors that a request for block deltas may ask for.
pub const MAX_BIP300_BLOCK_DELTA_ANCESTORS: u32 = 4_095;

/// A status code of the RPC protocol.
#[derive(Clone, Copy, Debug, PartialEq, Eq)]
pub enum Code {
    Canceled,
    Unknown,
    InvalidArgument,
    DeadlineExceeded,
    NotFound,
    AlreadyExists,
    PermissionDenied,
    ResourceExhausted,
    FailedPrecondition,
    Aborted,
    OutOfRange,
    Unimplemented,
    Internal,
    Unavailable,
    DataLoss,
    Unauthenticated,
}

/// The kind of a request whose fields are checked.
#[derive(Clone, Copy, Debug, PartialEq, Eq)]
pub enum RequestKind {
    GetBlockHeaderInfo,
    GetBlockInfo,
    GetBip300BlockDelta,
    GetBmmHStarCommitment,
    GetCoinbasePsbt,
    GetCtip,
    GetTwoWayPegData,
    SubscribeEvents,
}

/// A field of a request.
#[derive(Clone, Copy, Debug, PartialEq, Eq)]
pub enum Field {
    BlockHash,
    SidechainId,
    SidechainNumber,
    StartBlockHash,
    EndBlockHash,
    AckBundles,
}

/// A failure to read from the validator, with the status that stands for it.
#[derive(Debug, PartialEq, Eq)]
pub struct ReadError {
    pub code: Code,
    pub message: String,
}

/// Why a request is refused.
#[derive(Debug, PartialEq, Eq)]
pub enum RpcError {
    /// A field that must be there is missing.
    MissingField { request: RequestKind, field: Field },
    /// A field does not hold what it should.
    InvalidField { request: RequestKind, field: Field },
    /// More ancestors are asked for than one reply may carry.
    TooManyAncestors,
    /// The validator has no tip yet.
    NotSynced,
    /// No header sync is going on.
    NoHeaderSync,
    /// A stop was asked for before.
    AlreadyShuttingDown,
    /// A new treasury output has no deposit event in its block.
    DepositWithoutEvent { sidechain_number: SidechainNumber },
    /// A new treasury output belongs to no transaction of its block.
    DepositOutsideBlock { txid: Txid },
    /// A withdrawal has no event of its success in its block.
    WithdrawalWithoutEvent { sidechain_number: SidechainNumber },
    /// A withdrawal claims to be the first treasury output of its sidechain.
    WithdrawalAtSequenceZero,
    /// The payouts of a withdrawal add up to more than an amount can hold.
    PayoutOverflow,
    /// The outputs of a withdrawal add up to more than an amount can hold.
    OutputOverflow,
    /// The outputs of a withdrawal add up to more than the treasury held.
    OutputExceedsTreasury,
    /// A treasury output was not read from the validator.
    TreasuryNotRead { sidechain_number: SidechainNumber, sequence_number: u64 },
    /// Another block came than the one that was asked for.
    WrongBlock { returned: BlockHash, requested: BlockHash },
    /// A failure inside the validator.
    Internal { message: String },
    /// A failure that carries its own status.
    Status { code: Code, message: String },
}

/// A failure of the validator, reported as an internal error.
pub fn internal_err(err: ReadError) -> (r: RpcError)
    ensures
        r == (RpcError::Internal { message: err.message }),
{
    RpcError::Internal { message: err.message }
}

/// A failure of the validator, reported under its own status.
pub fn to_connect_error(err: ReadError) -> (r: RpcError)
    ensures
        r == (RpcError::Status { code: err.code, message: err.message }),
{
    RpcError::Status { code: err.code, message: err.message }
}

/// A hash as people write it: in hexadecimal, the last byte first.
pub open spec fn display_hash(h: Hash256) -> Seq<char> {
    reverse_hex(h@)
}

/// Bytes in hexadecimal, the last byte first.
pub open spec fn reverse_hex(bytes: Seq<u8>) -> Seq<char> {
    hex(bytes.reverse())
}

/// The name of a request.
pub open spec fn request_name(request: RequestKind) -> Seq<char> {
    match request {
        RequestKind::GetBlockHeaderInfo => "GetBlockHeaderInfoRequest"@,
        RequestKind::GetBlockInfo => "GetBlockInfoRequest"@,
        RequestKind::GetBip300BlockDelta => "GetBip300BlockDeltaRequest"@,
        RequestKind::GetBmmHStarCommitment => "GetBmmHStarCommitmentRequest"@,
        RequestKind::GetCoinbasePsbt => "GetCoinbasePSBTRequest"@,
        RequestKind::GetCtip => "GetCtipRequest"@,
        RequestKind::GetTwoWayPegData => "GetTwoWayPegDataRequest"@,
        RequestKind::SubscribeEvents => "SubscribeEventsRequest"@,
    }
}

/// The name of a field.
pub open spec fn field_name(field: Field) -> Seq<char> {
    match field {
        Field::BlockHash => "block_hash"@,
        Field::SidechainId => "sidechain_id"@,
        Field::SidechainNumber => "sidechain_number"@,
        Field::StartBlockHash => "start_block_hash"@,
        Field::EndBlockHash => "end_block_hash"@,
        Field::AckBundles => "ack_bundles"@,
    }
}

impl RequestKind {
    /// The name of the request.
    pub fn name(&self) -> (r: &'static str)
        ensures
            r@ == request_name(*self),
    {
        match self {
            RequestKind::GetBlockHeaderInfo => "GetBlockHeaderInfoRequest",
            RequestKind::GetBlockInfo => "GetBlockInfoRequest",
            RequestKind::GetBip300BlockDelta => "GetBip300BlockDeltaRequest",
            RequestKind::GetBmmHStarCommitment => "GetBmmHStarCommitmentRequest",
            RequestKind::GetCoinbasePsbt => "GetCoinbasePSBTRequest",
            RequestKind::GetCtip => "GetCtipRequest",
            RequestKind::GetTwoWayPegData => "GetTwoWayPegDataRequest",
            RequestKind::SubscribeEvents => "SubscribeEventsRequest",
        }
    }
}

impl Field {
    /// The name of the field.
    pub fn name(&self) -> (r: &'static str)
        ensures
            r@ == field_name(*self),
    {
        match self {
            Field::BlockHash => "block_hash",
            Field::SidechainId => "sidechain_id",
            Field::SidechainNumber => "sidechain_number",
            Field::StartBlockHash => "start_block_hash",
            Field::EndBlockHash => "end_block_hash",
            Field::AckBundles => "ack_bundles",
        }
    }
}

/// The hash as people write it.
pub fn hash_text(h: &Hash256) -> (r: String)
    ensures
        r@ == display_hash(*h),
{
    let mut reversed: Vec<u8> = Vec::new();
    for i in 0..32usize
        invariant
            reversed@.len() == i,
            forall|j: int| 0 <= j < i ==> #[trigger] reversed@[j] == h.0@[31 - j],
    {
        reversed.push(h.0[31 - i]);
    }
    assert(reversed@ =~= h@.reverse());
    to_hex(reversed.as_slice())
}

impl RpcError {
    /// The status code of the refusal.
    pub open spec fn spec_code(&self) -> Code {
        match *self {
            RpcError::MissingField { .. } => Code::InvalidArgument,
            RpcError::InvalidField { .. } => Code::InvalidArgument,
            RpcError::TooManyAncestors => Code::InvalidArgument,
            RpcError::NotSynced => Code::Unavailable,
            RpcError::NoHeaderSync => Code::Unavailable,
            RpcError::AlreadyShuttingDown => Code::Unavailable,
            RpcError::Status { code, .. } => code,
            _ => Code::Internal,
        }
    }

    /// The text of the refusal.
    pub open spec fn spec_message(&self) -> Seq<char> {
        match *self {
            RpcError::MissingField { request, field } => "missing field `"@ + field_name(field)
                + "` in `"@ + request_name(request) + "`"@,
            RpcError::InvalidField { request, field } => "invalid field `"@ + field_name(field)
                + "` in `"@ + request_name(request) + "`"@,
            RpcError::TooManyAncestors => "max_ancestors exceeds the observer RPC limit of "@
                + decimal(MAX_BIP300_BLOCK_DELTA_ANCESTORS as nat),
            RpcError::NotSynced => "Validator is not synced"@,
            RpcError::NoHeaderSync => "No header sync in progress"@,
            RpcError::AlreadyShuttingDown => "Validator is already shutting down"@,
            RpcError::DepositWithoutEvent { sidechain_number } => "M5 diff for sidechain "@
                + decimal(sidechain_number.0 as nat) + " has no matching block event"@,
            RpcError::DepositOutsideBlock { txid } => "M5 diff references transaction "@
                + display_hash(txid) + " outside its block"@,
            RpcError::WithdrawalWithoutEvent { sidechain_number } => "M6 diff for sidechain "@
                + decimal(sidechain_number.0 as nat) + " has no matching success event"@,
            RpcError::WithdrawalAtSequenceZero =>
                "a successful M6 cannot be treasury sequence zero"@,
            RpcError::PayoutOverflow => "M6 payout amount overflow"@,
            RpcError::OutputOverflow => "M6 output amount overflow"@,
            RpcError::OutputExceedsTreasury => "M6 output amount exceeds previous treasury value"@,
            RpcError::TreasuryNotRead { sidechain_number, sequence_number } =>
                "no treasury UTXO of sidechain "@ + decimal(sidechain_number.0 as nat)
                + " at sequence "@ + decimal(sequence_number as nat),
            RpcError::WrongBlock { returned, requested } => "Core returned block "@ + display_hash(
                returned,
            ) + " for requested block "@ + display_hash(requested),
            RpcError::Internal { message } => message@,
            RpcError::Status { message, .. } => message@,
        }
    }

    /// The status code of the refusal.
    pub fn code(&self) -> (r: Code)
        ensures
            r == self.spec_code(),
    {
        match self {
            RpcError::MissingField { .. } => Code::InvalidArgument,
            RpcError::InvalidField { .. } => Code::InvalidArgument,
            RpcError::TooManyAncestors => Code::InvalidArgument,
            RpcError::NotSynced => Code::Unavailable,
            RpcError::NoHeaderSync => Code::Unavailable,
            RpcError::AlreadyShuttingDown => Code::Unavailable,
            RpcError::Status { code, .. } => *code,
            _ => Code::Internal,
        }
    }

    /// The text of the refusal.
    pub fn message(&self) -> (r: String)
        ensures
            r@ == self.spec_message(),
    {
        let mut s = String::new();
        match self {
            RpcError::MissingField { request, field } => {
                s.append("missing field `");
                s.append(field.name());
                s.append("` in `");
                s.append(request.name());
                s.append("`");
            },
            RpcError::InvalidField { request, field } => {
                s.append("invalid field `");
                s.append(field.name());
                s.append("` in `");
                s.append(request.name());
                s.append("`");
            },
            RpcError::TooManyAncestors => {
                s.append("max_ancestors exceeds the observer RPC limit of ");
                push_decimal(&mut s, MAX_BIP300_BLOCK_DELTA_ANCESTORS as u64);
            },
            RpcError::NotSynced => {
                s.append("Validator is not synced");
            },
            RpcError::NoHeaderSync => {
                s.append("No header sync in progress");
            },
            RpcError::AlreadyShuttingDown => {
                s.append("Validator is already shutting down");
            },
            RpcError::DepositWithoutEvent { sidechain_number } => {
                s.append("M5 diff for sidechain ");
                push_decimal(&mut s, sidechain_number.0 as u64);
                s.append(" has no matching block event");
            },
            RpcError::DepositOutsideBlock { txid } => {
                s.append("M5 diff references transaction ");
                s.append(hash_text(txid).as_str());
                s.append(" outside its block");
            },
            RpcError::WithdrawalWithoutEvent { sidechain_number } => {
                s.append("M6 diff for sidechain ");
                push_decimal(&mut s, sidechain_number.0 as u64);
                s.append(" has no matching success event");
            },
            RpcError::WithdrawalAtSequenceZero => {
                s.append("a successful M6 cannot be treasury sequence zero");
            },
            RpcError::PayoutOverflow => {
                s.append("M6 payout amount overflow");
            },
            RpcError::OutputOverflow => {
                s.append("M6 output amount overflow");
            },
            RpcError::OutputExceedsTreasury => {
                s.append("M6 output amount exceeds previous treasury value");
            },
            RpcError::TreasuryNotRead { sidechain_number, sequence_number } => {
                s.append("no treasury UTXO of sidechain ");
                push_decimal(&mut s, sidechain_number.0 as u64);
                s.append(" at sequence ");
                push_decimal(&mut s, *sequence_number);
            },
            RpcError::WrongBlock { returned, requested } => {
                s.append("Core returned block ");
                s.append(hash_text(returned).as_str());
                s.append(" for requested block ");
                s.append(hash_text(requested).as_str());
            },
            RpcError::Internal { message } => {
                s.append(message.as_str());
            },
            RpcError::Status { message, .. } => {
                s.append(message.as_str());
            },
        }
        assert(s@ =~= self.spec_message());
        s
    }
}

} // verus!
