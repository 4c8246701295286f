//! The logic of a BIP300 validator's RPC service: what a request asks for, what a
//! block did to sidechains and their treasuries, and what goes out to a client.
pub mod block_laws;
pub mod bmm;
pub mod chain;
pub mod coinbase;
pub mod delta;
pub mod error;
pub mod laws;
pub mod messages;
pub mod order;
pub mod plan;
pub mod reply_laws;
pub mod request;
pub mod response;
pub mod search;
pub mod spelling;
pub mod text;
pub mod treasury;
pub mod treasury_laws;
pub mod types;
pub mod wire;
