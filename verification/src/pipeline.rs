//! Wiring of the log source into the confirmation stage: one scanned range
//! is validated, buffered whole, and only then acknowledged by advancing
//! the scan cursor. A range that could not be handed over completely is not
//! acknowledged, so the source re-queries it next cycle and nothing is
//! lost.

use vstd::prelude::*;

use crate::gate::{after_observes, all_accepted, ConfirmationGate, PendingConfirmation};
use crate::source::{batch_valid, LogSource};
use crate::types::RawLog;

verus! {

/// The buffer entries one batch turns into when observed at the given head.
pub open spec fn batch_entries(logs: Seq<RawLog>, observed_at: u64) -> Seq<PendingConfirmation> {
    logs.map_values(|l: RawLog| PendingConfirmation { log: l, observed_at })
}

/// Hands one scanned range downstream: validates the batch the node
/// returned for `(cursor, to]`, buffers every log for confirmation, and
/// advances the cursor to `to` only when the batch was valid and taken
/// whole. Otherwise the cursor stays put, so the same range is re-queried
/// next cycle -- the re-delivery that makes decoding and submission
/// idempotent.
pub fn ingest_batch(
    source: &mut LogSource,
    gate: &mut ConfirmationGate,
    head: u64,
    to: u64,
    logs: Vec<RawLog>,
) -> (delivered: bool)
    requires
        old(source).cursor <= to,
        old(gate).wf(),
    ensures
        final(gate).wf(),
        final(gate).required_confirmations == old(gate).required_confirmations,
        delivered == (batch_valid(old(source).cursor, to, logs@) && all_accepted(
            old(gate).buffer@,
            batch_entries(logs@, head),
        )),
        delivered ==> final(source).cursor == to,
        !delivered ==> final(source).cursor == old(source).cursor,
        batch_valid(old(source).cursor, to, logs@) ==> final(gate).buffer@ == after_observes(
            old(gate).buffer@,
            batch_entries(logs@, head),
        ),
        !batch_valid(old(source).cursor, to, logs@) ==> final(gate).buffer@ == old(gate).buffer@,
{
    if !source.validate_batch(to, &logs) {
        return false;
    }
    let ghost orig = logs@;
    let ghost entries = batch_entries(orig, head);
    let ghost old_buf = gate.buffer@;
    proof {
        assert(entries.len() == orig.len());
    }
    let mut rest = logs;
    let mut all = true;
    while rest.len() > 0
        invariant
            entries == batch_entries(orig, head),
            entries.len() == orig.len(),
            gate.wf(),
            gate.required_confirmations == old(gate).required_confirmations,
            source.cursor == old(source).cursor,
            rest@.len() <= orig.len(),
            rest@ == orig.subrange(orig.len() - rest@.len(), orig.len() as int),
            gate.buffer@ == after_observes(
                old_buf,
                entries.subrange(0, orig.len() - rest@.len()),
            ),
            all == all_accepted(old_buf, entries.subrange(0, orig.len() - rest@.len())),
        decreases rest@.len(),
    {
        let ghost k = orig.len() - rest@.len();
        let ghost rest_before = rest@;
        let log = rest.remove(0);
        proof {
            assert(log == rest_before[0]);
            assert(rest_before[0] == orig[k]);
            assert(rest@ =~= orig.subrange(orig.len() - rest@.len(), orig.len() as int));
        }
        let taken = gate.observe(log, head);
        all = all && taken;
        proof {
            let done = entries.subrange(0, k + 1);
            assert(done.drop_last() =~= entries.subrange(0, k));
            assert(done.last() == entries[k]);
            assert(entries[k] == (PendingConfirmation { log, observed_at: head }));
        }
    }
    proof {
        assert(entries.subrange(0, orig.len() as int) =~= entries);
        assert(rest@.len() == 0);
    }
    if all {
        source.advance(to);
    }
    all
}

} // verus!
