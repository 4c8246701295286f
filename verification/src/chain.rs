//! What the `bitcoin` crate computes: hashes, serialised forms and amounts.
use bitcoin::absolute::LockTime;
use bitcoin::amount::CheckedSum;
use bitcoin::consensus::encode::serialize;
use bitcoin::hashes::Hash as _;
use bitcoin::hashes::sha256d;
use bitcoin::transaction::Version;
use bitcoin::{Amount, OutPoint, ScriptBuf, Sequence, TxIn, TxOut, Txid, Witness};
use vstd::prelude::*;

use crate::types::{BlockHeader, Hash256, Transaction, TransactionView};

verus! {

/// The identifier of a transaction.
pub uninterp spec fn txid_of(tx: TransactionView) -> Seq<u8>;

/// The consensus serialisation of a transaction.
pub uninterp spec fn transaction_bytes(tx: TransactionView) -> Seq<u8>;

/// SHA-256 applied twice.
pub uninterp spec fn sha256d_of(bytes: Seq<u8>) -> Seq<u8>;

/// The `k` low bytes of `n`, the lowest first.
pub open spec fn le_bytes(n: nat, k: nat) -> Seq<u8>
    decreases k,
{
    if k == 0 {
        Seq::empty()
    } else {
        seq![(n % 256) as u8] + le_bytes(n / 256, (k - 1) as nat)
    }
}

/// A block header as consensus serialises it. A negative version stands as its
/// two's complement.
pub open spec fn header_bytes(header: BlockHeader) -> Seq<u8> {
    le_bytes(header.version as u32 as nat, 4) + header.prev_blockhash@ + header.merkle_root@
        + le_bytes(header.time as nat, 4) + le_bytes(header.bits as nat, 4) + le_bytes(
        header.nonce as nat,
        4,
    )
}

/// The hash of a block header.
pub open spec fn block_hash_of(header: BlockHeader) -> Seq<u8> {
    sha256d_of(header_bytes(header))
}

/// `n` as a compact size.
pub open spec fn compact_size(n: nat) -> Seq<u8> {
    if n <= 0xfc {
        seq![n as u8]
    } else if n <= 0xffff {
        seq![0xfdu8] + le_bytes(n, 2)
    } else if n <= 0xffff_ffff {
        seq![0xfeu8] + le_bytes(n, 4)
    } else {
        seq![0xffu8] + le_bytes(n, 8)
    }
}

/// The sum of amounts.
pub open spec fn total(values: Seq<u64>) -> nat
    decreases values.len(),
{
    if values.len() == 0 {
        0
    } else {
        total(values.drop_last()) + values.last() as nat
    }
}

/// `bitcoin::Transaction::compute_txid`: the identifier depends on the
/// transaction alone. A `bitcoin::Witness` holds the offsets of its items in 32
/// bits and panics where one does not fit.
#[verifier::external_body]
pub(crate) fn compute_txid(tx: &Transaction) -> (r: Hash256)
    requires
        tx.encodable(),
    ensures
        r@ == txid_of(tx@),
{
    let input = tx.input.iter().map(|i| TxIn {
        previous_output: OutPoint::new(
            Txid::from_byte_array(i.previous_output.txid.0), i.previous_output.vout),
        script_sig: ScriptBuf::from_bytes(i.script_sig.clone()),
        sequence: Sequence(i.sequence),
        witness: Witness::from_slice(&i.witness),
    });
    let output = tx.output.iter().map(|o| TxOut {
        value: Amount::from_sat(o.value),
        script_pubkey: ScriptBuf::from_bytes(o.script_pubkey.clone()),
    });
    let lock_time = LockTime::from_consensus(tx.lock_time);
    let (version, input, output) = (Version(tx.version), input.collect(), output.collect());
    let tx = bitcoin::Transaction { version, lock_time, input, output };
    Hash256(tx.compute_txid().to_byte_array())
}

/// `bitcoin::consensus::encode::serialize` of a `bitcoin::Transaction`: the bytes
/// depend on the transaction alone. A `bitcoin::Witness` holds the offsets of
/// its items in 32 bits and panics where one does not fit.
#[verifier::external_body]
pub(crate) fn serialize_transaction(tx: &Transaction) -> (r: Vec<u8>)
    requires
        tx.encodable(),
    ensures
        r@ == transaction_bytes(tx@),
{
    let input = tx.input.iter().map(|i| TxIn {
        previous_output: OutPoint::new(
            Txid::from_byte_array(i.previous_output.txid.0), i.previous_output.vout),
        script_sig: ScriptBuf::from_bytes(i.script_sig.clone()),
        sequence: Sequence(i.sequence),
        witness: Witness::from_slice(&i.witness),
    });
    let output = tx.output.iter().map(|o| TxOut {
        value: Amount::from_sat(o.value),
        script_pubkey: ScriptBuf::from_bytes(o.script_pubkey.clone()),
    });
    let lock_time = LockTime::from_consensus(tx.lock_time);
    let (version, input, output) = (Version(tx.version), input.collect(), output.collect());
    serialize(&bitcoin::Transaction { version, lock_time, input, output })
}

/// `bitcoin::consensus::encode::serialize` of a `Vec<u8>`: the length as a
/// compact size, then the bytes.
#[verifier::external_body]
pub(crate) fn serialize_bytes(bytes: &Vec<u8>) -> (r: Vec<u8>)
    ensures
        r@ == compact_size(bytes@.len()) + bytes@,
{
    serialize(bytes)
}

/// `bitcoin::block::Header::block_hash`: SHA-256 applied twice to the serialised
/// header.
#[verifier::external_body]
pub(crate) fn block_hash(header: &BlockHeader) -> (r: Hash256)
    ensures
        r@ == block_hash_of(*header),
{
    let header = bitcoin::block::Header {
        version: bitcoin::block::Version::from_consensus(header.version),
        prev_blockhash: bitcoin::hashes::Hash::from_byte_array(header.prev_blockhash.0),
        merkle_root: bitcoin::hashes::Hash::from_byte_array(header.merkle_root.0),
        time: header.time,
        bits: bitcoin::CompactTarget::from_consensus(header.bits),
        nonce: header.nonce,
    };
    Hash256(header.block_hash().to_byte_array())
}

/// `bitcoin::hashes::sha256d::Hash::hash`: the hash depends on the bytes alone.
#[verifier::external_body]
pub(crate) fn sha256d(bytes: &Vec<u8>) -> (r: Hash256)
    ensures
        r@ == sha256d_of(bytes@),
{
    Hash256(sha256d::Hash::hash(bytes).to_byte_array())
}

/// `bitcoin::Amount::checked_add`: the sum, where it fits in 64 bits.
#[verifier::external_body]
pub(crate) fn checked_add(a: u64, b: u64) -> (r: Option<u64>)
    ensures
        r == (if a + b <= u64::MAX {
            Some((a + b) as u64)
        } else {
            None
        }),
{
    Amount::from_sat(a).checked_add(Amount::from_sat(b)).map(Amount::to_sat)
}

/// `bitcoin::Amount::checked_sub`: the difference, where it is not negative.
#[verifier::external_body]
pub(crate) fn checked_sub(a: u64, b: u64) -> (r: Option<u64>)
    ensures
        r == (if a >= b {
            Some((a - b) as u64)
        } else {
            None
        }),
{
    Amount::from_sat(a).checked_sub(Amount::from_sat(b)).map(Amount::to_sat)
}

/// `bitcoin::amount::CheckedSum::checked_sum`: the sum of all amounts, where it
/// fits in 64 bits.
#[verifier::external_body]
pub(crate) fn checked_sum(values: &Vec<u64>) -> (r: Option<u64>)
    ensures
        r == (if total(values@) <= u64::MAX {
            Some(total(values@) as u64)
        } else {
            None
        }),
{
    values.iter().map(|value| Amount::from_sat(*value)).checked_sum().map(Amount::to_sat)
}

/// `nonempty::NonEmpty::from_vec`: the first element and the rest, where there is
/// a first element.
#[verifier::external_body]
pub(crate) fn split_first<T>(v: Vec<T>) -> (r: Option<(T, Vec<T>)>)
    ensures
        match r {
            Some((head, tail)) => v@ == seq![head] + tail@,
            None => v@.len() == 0,
        },
{
    nonempty::NonEmpty::from_vec(v).map(|v| (v.head, v.tail))
}

} // verus!
