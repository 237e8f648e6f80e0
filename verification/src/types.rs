//! Domain values shared by every stage: deposits, raw chain logs, log
//! filters, and the byte-level well-formedness they must keep.

use vstd::prelude::*;

verus! {

/// Byte length of an account identifier on either chain.
pub const ADDRESS_LEN: usize = 20;

/// Byte length of a 256-bit chain word: values, hashes, topics.
pub const WORD_LEN: usize = 32;

/// A deposit decoded from a source-chain log. Immutable once decoded.
/// Two deposits with an equal `hash` are the same logical event and must be
/// relayed at most once.
pub struct Deposit {
    /// 20-byte account that receives the mirrored mint.
    pub recipient: Vec<u8>,
    /// 256-bit deposited value, big-endian.
    pub value: Vec<u8>,
    /// 32-byte idempotency key, derived from the source transaction hash.
    pub hash: Vec<u8>,
}

impl Deposit {
    /// Field lengths are the fixed chain widths.
    pub open spec fn wf(&self) -> bool {
        &&& self.recipient@.len() == ADDRESS_LEN
        &&& self.value@.len() == WORD_LEN
        &&& self.hash@.len() == WORD_LEN
    }
}

/// An event log as a chain node reports it. Consumed by the contract
/// binding for decoding; not retained after decoding succeeds.
pub struct RawLog {
    /// Contract that emitted the log.
    pub address: Vec<u8>,
    /// Indexed topics; the first is the event signature.
    pub topics: Vec<Vec<u8>>,
    /// Non-indexed event data.
    pub data: Vec<u8>,
    /// Block that contains the log.
    pub block_number: u64,
    /// Position of the log within its block.
    pub log_index: u64,
    /// Hash of the transaction that emitted the log.
    pub transaction_hash: Vec<u8>,
}

impl RawLog {
    /// Field lengths are the fixed chain widths.
    pub open spec fn wf(&self) -> bool {
        &&& self.address@.len() == ADDRESS_LEN
        &&& forall|i: int|
            0 <= i < self.topics@.len() ==> (#[trigger] self.topics@[i])@.len() == WORD_LEN
        &&& self.transaction_hash@.len() == WORD_LEN
    }

    /// Position of the log on its chain: block number first, log index second.
    pub open spec fn position(&self) -> (u64, u64) {
        (self.block_number, self.log_index)
    }
}

/// A query filter for a node's log endpoint: one contract address, one event
/// signature topic, and an optional block range.
pub struct LogFilter {
    /// Contract address the logs must come from.
    pub address: Vec<u8>,
    /// Required first topic: the event's signature hash.
    pub topic0: Vec<u8>,
    /// Lower bound of the block range, inclusive; `None` leaves it open.
    pub from_block: Option<u64>,
    /// Upper bound of the block range, inclusive; `None` leaves it open.
    pub to_block: Option<u64>,
}

/// Lexicographic order on (block number, log index) positions.
pub open spec fn pos_le(a: (u64, u64), b: (u64, u64)) -> bool {
    a.0 < b.0 || (a.0 == b.0 && a.1 <= b.1)
}

/// Strict lexicographic order on (block number, log index) positions.
pub open spec fn pos_lt(a: (u64, u64), b: (u64, u64)) -> bool {
    a.0 < b.0 || (a.0 == b.0 && a.1 < b.1)
}

/// Copies a byte vector. Stages keep their own copy of a hash or an address
/// when the original moves on downstream.
pub fn copy_bytes(src: &Vec<u8>) -> (r: Vec<u8>)
    ensures
        r@ == src@,
{
    let mut out: Vec<u8> = Vec::new();
    let mut i: usize = 0;
    while i < src.len()
        invariant
            i <= src@.len(),
            out@ =~= src@.subrange(0, i as int),
        decreases src@.len() - i,
    {
        out.push(src[i]);
        i = i + 1;
    }
    proof {
        assert(out@ =~= src@);
    }
    out
}

/// Appends the contents of `src` to `dst`.
pub fn push_all(dst: &mut Vec<u8>, src: &Vec<u8>)
    ensures
        final(dst)@ == old(dst)@ + src@,
{
    let mut i: usize = 0;
    while i < src.len()
        invariant
            i <= src@.len(),
            dst@ =~= old(dst)@ + src@.subrange(0, i as int),
        decreases src@.len() - i,
    {
        dst.push(src[i]);
        i = i + 1;
    }
    proof {
        assert(dst@ =~= old(dst)@ + src@);
    }
}

/// Appends `n` zero bytes to `dst`.
pub fn push_zeros(dst: &mut Vec<u8>, n: usize)
    ensures
        final(dst)@ == old(dst)@ + Seq::new(n as nat, |i: int| 0u8),
{
    let mut i: usize = 0;
    while i < n
        invariant
            i <= n,
            dst@ =~= old(dst)@ + Seq::new(i as nat, |j: int| 0u8),
        decreases n - i,
    {
        dst.push(0u8);
        i = i + 1;
    }
    proof {
        assert(dst@ =~= old(dst)@ + Seq::new(n as nat, |i: int| 0u8));
    }
}

/// Copies the bytes of `src` in positions `from ..< to` into a new vector.
pub fn slice_range(src: &Vec<u8>, from: usize, to: usize) -> (r: Vec<u8>)
    requires
        from <= to <= src@.len(),
    ensures
        r@ == src@.subrange(from as int, to as int),
{
    let mut out: Vec<u8> = Vec::new();
    let mut i: usize = from;
    while i < to
        invariant
            from <= i <= to <= src@.len(),
            out@ =~= src@.subrange(from as int, i as int),
        decreases to - i,
    {
        out.push(src[i]);
        i = i + 1;
    }
    proof {
        assert(out@ =~= src@.subrange(from as int, to as int));
    }
    out
}

/// Compares two byte vectors for equality of contents.
pub fn bytes_eq(a: &Vec<u8>, b: &Vec<u8>) -> (r: bool)
    ensures
        r == (a@ == b@),
{
    if a.len() != b.len() {
        proof {
            assert(a@ != b@);
        }
        return false;
    }
    let mut i: usize = 0;
    while i < a.len()
        invariant
            i <= a@.len(),
            a@.len() == b@.len(),
            forall|j: int| 0 <= j < i ==> a@[j] == b@[j],
        decreases a@.len() - i,
    {
        if a[i] != b[i] {
            proof {
                assert(a@[i as int] != b@[i as int]);
            }
            return false;
        }
        i = i + 1;
    }
    proof {
        assert(a@ =~= b@);
    }
    true
}

} // verus!
