//! The confirmation gate: buffers observed logs and releases one only once
//! the chain head has advanced at least `required_confirmations` blocks past
//! the log's block. Confirmation depth is the sole reorganization defense:
//! before promoting a ready entry the caller re-queries the node, and an
//! entry whose block was reorganized away is dropped silently.

use vstd::prelude::*;

use crate::types::{pos_le, pos_lt, RawLog};

verus! {

/// A log waiting for confirmation: the raw log plus the head block at the poll
/// cycle that first observed it. Lives in the buffer from observation until
/// promotion to the decoder or a reorganization discards it.
pub struct PendingConfirmation {
    /// The observed log.
    pub log: RawLog,
    /// Chain head at the cycle that observed the log.
    pub observed_at: u64,
}

/// Whether an entry's block is at least `required_confirmations` deep under
/// the given head.
pub open spec fn confirmed(entry: PendingConfirmation, head: u64, required_confirmations: u64) -> bool {
    entry.log.block_number + required_confirmations <= head
}

/// The buffer keeps arrival order, which is non-decreasing (block, index)
/// order: the log source emits in that order, and a re-scan can repeat a
/// position but never go back past one.
pub open spec fn buffer_ordered(buf: Seq<PendingConfirmation>) -> bool {
    forall|i: int|
        0 <= i && i + 1 < buf.len() ==> #[trigger] pos_le(
            buf[i].log.position(),
            buf[i + 1].log.position(),
        )
}

/// Whether a new entry is taken into the buffer: the buffer is empty, or the entry
/// does not stand before the newest buffered one.
pub open spec fn accepts(buf: Seq<PendingConfirmation>, entry: PendingConfirmation) -> bool {
    buf.len() == 0 || pos_le(buf.last().log.position(), entry.log.position())
}

/// The buffer after one `observe`: the entry is appended when accepted and
/// ignored otherwise.
pub open spec fn observe_spec(
    buf: Seq<PendingConfirmation>,
    entry: PendingConfirmation,
) -> Seq<PendingConfirmation> {
    if accepts(buf, entry) {
        buf.push(entry)
    } else {
        buf
    }
}

/// The buffer after a whole sequence of `observe` calls, first entry first.
pub open spec fn after_observes(
    buf: Seq<PendingConfirmation>,
    entries: Seq<PendingConfirmation>,
) -> Seq<PendingConfirmation>
    decreases entries.len(),
{
    if entries.len() == 0 {
        buf
    } else {
        observe_spec(after_observes(buf, entries.drop_last()), entries.last())
    }
}

/// Whether a whole sequence of `observe` calls accepts every entry.
pub open spec fn all_accepted(
    buf: Seq<PendingConfirmation>,
    entries: Seq<PendingConfirmation>,
) -> bool
    decreases entries.len(),
{
    if entries.len() == 0 {
        true
    } else {
        all_accepted(buf, entries.drop_last()) && accepts(
            after_observes(buf, entries.drop_last()),
            entries.last(),
        )
    }
}

/// One direction's confirmation gate.
pub struct ConfirmationGate {
    /// Observed-but-unconfirmed logs, in arrival order.
    pub buffer: Vec<PendingConfirmation>,
    /// Blocks the chain head must advance past a log's block before the log
    /// is released.
    pub required_confirmations: u64,
}

impl ConfirmationGate {
    /// The buffer stands in non-decreasing (block, index) order.
    pub open spec fn wf(&self) -> bool {
        buffer_ordered(self.buffer@)
    }

    /// An empty gate for the given confirmation depth.
    pub fn new(required_confirmations: u64) -> (r: ConfirmationGate)
        ensures
            r.wf(),
            r.buffer@.len() == 0,
            r.required_confirmations == required_confirmations,
    {
        ConfirmationGate { buffer: Vec::new(), required_confirmations }
    }

    /// Number of buffered entries.
    pub fn len(&self) -> (n: usize)
        ensures
            n == self.buffer@.len(),
    {
        self.buffer.len()
    }

    /// Buffers one observed log. The log is accepted exactly when it does not
    /// stand before the newest buffered entry; a rejected log is not lost,
    /// since the caller then leaves the scan cursor where it was and the
    /// source re-delivers the same range next cycle.
    pub fn observe(&mut self, log: RawLog, observed_at: u64) -> (accepted: bool)
        requires
            old(self).wf(),
        ensures
            final(self).wf(),
            final(self).required_confirmations == old(self).required_confirmations,
            accepted == accepts(old(self).buffer@, PendingConfirmation { log, observed_at }),
            final(self).buffer@ == observe_spec(
                old(self).buffer@,
                PendingConfirmation { log, observed_at },
            ),
    {
        let n = self.buffer.len();
        let ok = if n == 0 {
            true
        } else {
            let last_block = self.buffer[n - 1].log.block_number;
            let last_index = self.buffer[n - 1].log.log_index;
            last_block < log.block_number || (last_block == log.block_number && last_index
                <= log.log_index)
        };
        if ok {
            let ghost old_buf = self.buffer@;
            let entry = PendingConfirmation { log, observed_at };
            self.buffer.push(entry);
            proof {
                assert forall|i: int| 0 <= i && i + 1 < self.buffer@.len() implies #[trigger] pos_le(
                    self.buffer@[i].log.position(),
                    self.buffer@[i + 1].log.position(),
                ) by {
                    if i + 2 < self.buffer@.len() {
                        assert(self.buffer@[i] == old_buf[i]);
                        assert(self.buffer@[i + 1] == old_buf[i + 1]);
                        assert(pos_le(old_buf[i].log.position(), old_buf[i + 1].log.position()));
                    } else {
                        assert(self.buffer@[i] == old_buf.last());
                    }
                }
            }
            true
        } else {
            false
        }
    }

    /// Removes and returns the front entry when its block is at least
    /// `required_confirmations` deep under `head`; returns `None`, changing
    /// nothing, when the buffer is empty or the front entry is not yet that
    /// deep. Later entries cannot be deeper than the front one, so a `None`
    /// ends the poll cycle. An entry is never returned while
    /// `head < block + required_confirmations`.
    pub fn pop_ready(&mut self, head: u64) -> (r: Option<PendingConfirmation>)
        requires
            old(self).wf(),
        ensures
            final(self).wf(),
            final(self).required_confirmations == old(self).required_confirmations,
            match r {
                Some(entry) => {
                    &&& old(self).buffer@.len() > 0
                    &&& entry == old(self).buffer@[0]
                    &&& confirmed(entry, head, old(self).required_confirmations)
                    &&& final(self).buffer@ == old(self).buffer@.subrange(
                        1,
                        old(self).buffer@.len() as int,
                    )
                },
                None => {
                    &&& final(self).buffer@ == old(self).buffer@
                    &&& (old(self).buffer@.len() == 0 || !confirmed(
                        old(self).buffer@[0],
                        head,
                        old(self).required_confirmations,
                    ))
                },
            },
    {
        if self.buffer.len() == 0 {
            return None;
        }
        let block = self.buffer[0].log.block_number;
        if !(head >= block && head - block >= self.required_confirmations) {
            return None;
        }
        let ghost old_buf = self.buffer@;
        let entry = self.buffer.remove(0);
        proof {
            assert(self.buffer@ =~= old_buf.subrange(1, old_buf.len() as int));
            assert forall|i: int| 0 <= i && i + 1 < self.buffer@.len() implies #[trigger] pos_le(
                self.buffer@[i].log.position(),
                self.buffer@[i + 1].log.position(),
            ) by {
                assert(self.buffer@[i] == old_buf[i + 1]);
                assert(self.buffer@[i + 1] == old_buf[i + 2]);
                assert(pos_le(old_buf[i + 1].log.position(), old_buf[i + 2].log.position()));
            }
        }
        Some(entry)
    }
}

/// The reorganization decision for one confirmation-ready entry: the caller
/// re-queries the node for the entry's block/index and reports whether the
/// log is still present. A present entry is promoted to the decoder; an
/// absent one was reorganized out and is dropped silently.
pub fn screen_reorg(entry: PendingConfirmation, present: bool) -> (r: Option<PendingConfirmation>)
    ensures
        present ==> r == Some(entry),
        !present ==> r is None,
{
    if present {
        Some(entry)
    } else {
        None
    }
}

/// A non-decreasing run of entries whose first one does not stand before the
/// buffer's newest entry is accepted whole, and lands behind the buffer in
/// exactly its own order.
proof fn lemma_observes_append(buf: Seq<PendingConfirmation>, entries: Seq<PendingConfirmation>)
    requires
        buffer_ordered(buf),
        buffer_ordered(entries),
        buf.len() > 0 && entries.len() > 0 ==> pos_le(
            buf.last().log.position(),
            entries[0].log.position(),
        ),
    ensures
        after_observes(buf, entries) == buf + entries,
        all_accepted(buf, entries),
    decreases entries.len(),
{
    if entries.len() == 0 {
        assert(after_observes(buf, entries) =~= buf + entries);
    } else {
        let front = entries.drop_last();
        let last = entries.last();
        assert forall|i: int| 0 <= i && i + 1 < front.len() implies #[trigger] pos_le(
            front[i].log.position(),
            front[i + 1].log.position(),
        ) by {
            assert(front[i] == entries[i]);
            assert(front[i + 1] == entries[i + 1]);
            assert(pos_le(entries[i].log.position(), entries[i + 1].log.position()));
        }
        if front.len() > 0 {
            assert(front[0] == entries[0]);
        }
        lemma_observes_append(buf, front);
        let mid = buf + front;
        if mid.len() > 0 {
            if front.len() > 0 {
                assert(mid.last() == front.last());
                let i = entries.len() - 2;
                assert(front.last() == entries[i]);
                assert(pos_le(entries[i].log.position(), entries[i + 1].log.position()));
                assert(entries[i + 1] == last);
            } else {
                assert(mid.last() == buf.last());
                assert(entries[0] == last);
            }
        }
        assert(accepts(mid, last));
        assert(mid.push(last) =~= buf + entries);
    }
}

/// Ordering: a sequence of logs with strictly increasing (block, index)
/// positions, observed into an empty gate in that order, is accepted in full
/// and buffered in exactly that order. `pop_ready` only ever removes the
/// front entry, so the buffer also releases the sequence downstream in that
/// same order.
pub proof fn lemma_order_preserved(entries: Seq<PendingConfirmation>)
    requires
        forall|i: int|
            0 <= i && i + 1 < entries.len() ==> #[trigger] pos_lt(
                entries[i].log.position(),
                entries[i + 1].log.position(),
            ),
    ensures
        after_observes(Seq::empty(), entries) == entries,
        all_accepted(Seq::empty(), entries),
{
    assert forall|i: int| 0 <= i && i + 1 < entries.len() implies #[trigger] pos_le(
        entries[i].log.position(),
        entries[i + 1].log.position(),
    ) by {
        assert(pos_lt(entries[i].log.position(), entries[i + 1].log.position()));
    }
    lemma_observes_append(Seq::empty(), entries);
    assert(Seq::<PendingConfirmation>::empty() + entries =~= entries);
}

} // verus!
