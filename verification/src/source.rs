//! The log source: produces an ordered, restartable sequence of raw logs for
//! one contract and event, advancing a persisted scan cursor. The chain I/O
//! itself (head queries, log queries) stays with the caller; this stage
//! decides which range to scan, validates what the node returned, and
//! advances the cursor only once a whole range was handed downstream.

use vstd::prelude::*;

use crate::types::{pos_lt, RawLog};

verus! {

/// Whether one queried batch is fit to hand downstream: every log lies in
/// the scanned range `(cursor, head]`, and the logs stand in strictly
/// increasing (block, index) order -- the ordering downstream confirmation
/// and idempotency logic assumes.
pub open spec fn batch_valid(cursor: u64, head: u64, logs: Seq<RawLog>) -> bool {
    &&& forall|i: int|
        0 <= i < logs.len() ==> cursor < (#[trigger] logs[i]).block_number <= head
    &&& forall|i: int|
        0 <= i && i + 1 < logs.len() ==> #[trigger] pos_lt(
            logs[i].position(),
            logs[i + 1].position(),
        )
}

/// One direction's log source: the highest block fully scanned for logs.
/// Persisted, so a restart resumes from it without re-scanning from genesis
/// and without missing a block.
pub struct LogSource {
    /// The scan cursor: highest block already scanned.
    pub cursor: u64,
}

impl LogSource {
    /// A source resuming from a persisted cursor.
    pub fn new(cursor: u64) -> (r: LogSource)
        ensures
            r.cursor == cursor,
    {
        LogSource { cursor }
    }

    /// The range to query this poll cycle: `(cursor, head]` as an inclusive
    /// pair, or `None` when the head has not moved past the cursor and the
    /// cycle suspends until the next poll interval.
    pub fn scan_range(&self, head: u64) -> (r: Option<(u64, u64)>)
        ensures
            match r {
                Some(range) => head > self.cursor && range.0 == self.cursor + 1 && range.1 == head,
                None => head <= self.cursor,
            },
    {
        if head > self.cursor {
            Some((self.cursor + 1, head))
        } else {
            None
        }
    }

    /// Validates a batch the node returned for the current range: in-range
    /// and strictly (block, index) ordered. An invalid batch is not handed
    /// downstream; the cursor stays put and the range is re-queried next
    /// cycle.
    pub fn validate_batch(&self, head: u64, logs: &Vec<RawLog>) -> (r: bool)
        ensures
            r == batch_valid(self.cursor, head, logs@),
    {
        let mut i: usize = 0;
        while i < logs.len()
            invariant
                i <= logs@.len(),
                forall|k: int|
                    0 <= k < i ==> self.cursor < (#[trigger] logs@[k]).block_number <= head,
                forall|k: int|
                    0 <= k && k + 1 < i ==> #[trigger] pos_lt(
                        logs@[k].position(),
                        logs@[k + 1].position(),
                    ),
            decreases logs@.len() - i,
        {
            let block = logs[i].block_number;
            if !(self.cursor < block && block <= head) {
                proof {
                    assert(!(self.cursor < logs@[i as int].block_number <= head));
                }
                return false;
            }
            if i > 0 {
                let prev_block = logs[i - 1].block_number;
                let prev_index = logs[i - 1].log_index;
                if !(prev_block < block || (prev_block == block && prev_index < logs[i].log_index))
                {
                    proof {
                        let k = i as int - 1;
                        assert(!pos_lt(logs@[k].position(), logs@[k + 1].position()));
                        assert(!batch_valid(self.cursor, head, logs@));
                    }
                    return false;
                }
            }
            i = i + 1;
        }
        true
    }

    /// Advances the cursor to `head`, after every log of the scanned range
    /// was handed downstream successfully. On a downstream failure the
    /// caller skips this, and the same range is re-queried next cycle; that
    /// re-delivery is why decoding and submission are idempotent. The cursor
    /// never moves backwards.
    pub fn advance(&mut self, head: u64)
        requires
            old(self).cursor <= head,
        ensures
            final(self).cursor == head,
    {
        self.cursor = head;
    }
}

} // verus!
