//! The relay submitter: ensures each confirmed deposit is mirrored to the
//! destination chain exactly once, across restarts and transient submission
//! failures. Deposits are deduplicated by their idempotency hash: a
//! submission record is created, keyed by the hash, before the first
//! submission attempt, and the hash stays recorded for good once the relay
//! completes or is abandoned.
//!
//! The node interaction itself stays with the caller (case by case: send the
//! payload, watch for inclusion); the submitter is the state machine that
//! decides, for each report coming back, what each record becomes. The
//! whole machine is mirrored by the spec functions [`step`] and [`run`], and
//! the relay guarantees are proved of those: see [`lemma_at_most_once`],
//! [`lemma_failed_is_permanent`] and [`lemma_retry_within_budget`].

use vstd::prelude::*;

use crate::types::{bytes_eq, copy_bytes, Deposit};

verus! {

/// Lifecycle of one tracked deposit.
#[derive(Clone, Copy, PartialEq, Eq, Structural, Debug)]
pub enum RecordState {
    /// Waiting to be submitted (first attempt or retry).
    Pending,
    /// Accepted by the destination node; watching for inclusion depth.
    Submitted,
    /// Mirrored transaction reached the confirmation depth; done for good.
    Complete,
    /// Attempt budget exhausted; surfaced to the operator, never retried.
    Failed,
}

/// Tracks one deposit handed to the destination chain.
pub struct SubmissionRecord {
    /// The deposit's 32-byte idempotency hash.
    pub hash: Vec<u8>,
    /// Destination transaction identifier, once the node accepted one.
    pub tx_id: Option<Vec<u8>>,
    /// Failed attempts so far.
    pub attempts: u64,
    /// Where the relay of this deposit stands.
    pub state: RecordState,
}

/// The spec-level image of a record.
pub struct RecordModel {
    /// The deposit's idempotency hash.
    pub hash: Seq<u8>,
    /// Destination transaction identifier, if one was accepted.
    pub tx_id: Option<Seq<u8>>,
    /// Failed attempts so far.
    pub attempts: u64,
    /// Where the relay stands.
    pub state: RecordState,
}

impl View for SubmissionRecord {
    type V = RecordModel;

    open spec fn view(&self) -> RecordModel {
        RecordModel {
            hash: self.hash@,
            tx_id: match self.tx_id {
                Some(t) => Some(t@),
                None => None,
            },
            attempts: self.attempts,
            state: self.state,
        }
    }
}

/// One interaction with the destination chain, as the driving loop reports
/// it back to the submitter.
pub enum SubmitterEvent {
    /// A confirmed deposit with this hash arrived from the decoder.
    Accept { hash: Seq<u8> },
    /// The node accepted the submitted transaction under this identifier.
    NodeAccepted { hash: Seq<u8>, tx_id: Seq<u8> },
    /// The node rejected the submission.
    NodeRejected { hash: Seq<u8> },
    /// The submitted transaction reached the confirmation depth.
    InclusionConfirmed { hash: Seq<u8> },
    /// The submitted transaction was not seen included within the bounded
    /// watch window.
    InclusionTimeout { hash: Seq<u8> },
}

/// What the submitter answers when a deposit arrives.
#[derive(Clone, Copy, PartialEq, Eq, Structural, Debug)]
pub enum AcceptOutcome {
    /// New deposit: a record was created and persisted; submit it now.
    Submit,
    /// A record is still in flight; resume tracking it, do not resubmit.
    Resume,
    /// The deposit was already relayed or abandoned; discard silently.
    Discard,
}

/// Index of the first record carrying `h`, or -1 when none does.
pub open spec fn find_record(rs: Seq<RecordModel>, h: Seq<u8>) -> int
    decreases rs.len(),
{
    if rs.len() == 0 {
        -1
    } else if rs[0].hash == h {
        0
    } else {
        let r = find_record(rs.subrange(1, rs.len() as int), h);
        if r < 0 {
            -1
        } else {
            r + 1
        }
    }
}

/// Whether some record carries `h`.
pub open spec fn has_hash(rs: Seq<RecordModel>, h: Seq<u8>) -> bool {
    find_record(rs, h) >= 0
}

/// Whether a record still takes part in the relay: only pending and
/// submitted records ever change again.
pub open spec fn is_active(s: RecordState) -> bool {
    s == RecordState::Pending || s == RecordState::Submitted
}

/// Record-set invariant: hashes are unique, an active record has attempts
/// left within the budget, and no record ever counts past the budget.
pub open spec fn records_wf(rs: Seq<RecordModel>, max_attempts: u64) -> bool {
    &&& forall|i: int, j: int|
        0 <= i < j < rs.len() ==> (#[trigger] rs[i]).hash != (#[trigger] rs[j]).hash
    &&& forall|i: int|
        0 <= i < rs.len() && is_active((#[trigger] rs[i]).state) ==> rs[i].attempts < max_attempts
    &&& forall|i: int| 0 <= i < rs.len() ==> (#[trigger] rs[i]).attempts <= max_attempts
}

/// A record after one more failed attempt: retried while budget remains,
/// abandoned for good when the budget is exhausted.
pub open spec fn bumped(r: RecordModel, max_attempts: u64) -> RecordModel {
    RecordModel {
        hash: r.hash,
        tx_id: None,
        attempts: (r.attempts + 1) as u64,
        state: if r.attempts + 1 >= max_attempts {
            RecordState::Failed
        } else {
            RecordState::Pending
        },
    }
}

/// A failed attempt against the record carrying `h`, counted only when that
/// record stands in the expected state.
pub open spec fn retry_step(
    rs: Seq<RecordModel>,
    max_attempts: u64,
    h: Seq<u8>,
    expected: RecordState,
) -> Seq<RecordModel> {
    let i = find_record(rs, h);
    if i >= 0 && rs[i].state == expected {
        rs.update(i, bumped(rs[i], max_attempts))
    } else {
        rs
    }
}

/// The record set after one event. Every transition keeps every record's
/// hash: a hash once recorded is recorded for good.
pub open spec fn step(rs: Seq<RecordModel>, max_attempts: u64, e: SubmitterEvent) -> Seq<
    RecordModel,
> {
    match e {
        SubmitterEvent::Accept { hash } => {
            if has_hash(rs, hash) {
                rs
            } else {
                rs.push(
                    RecordModel {
                        hash,
                        tx_id: None,
                        attempts: 0,
                        state: RecordState::Pending,
                    },
                )
            }
        },
        SubmitterEvent::NodeAccepted { hash, tx_id } => {
            let i = find_record(rs, hash);
            if i >= 0 && rs[i].state == RecordState::Pending {
                rs.update(
                    i,
                    RecordModel {
                        hash: rs[i].hash,
                        tx_id: Some(tx_id),
                        attempts: rs[i].attempts,
                        state: RecordState::Submitted,
                    },
                )
            } else {
                rs
            }
        },
        SubmitterEvent::NodeRejected { hash } => retry_step(
            rs,
            max_attempts,
            hash,
            RecordState::Pending,
        ),
        SubmitterEvent::InclusionTimeout { hash } => retry_step(
            rs,
            max_attempts,
            hash,
            RecordState::Submitted,
        ),
        SubmitterEvent::InclusionConfirmed { hash } => {
            let i = find_record(rs, hash);
            if i >= 0 && rs[i].state == RecordState::Submitted {
                rs.update(
                    i,
                    RecordModel {
                        hash: rs[i].hash,
                        tx_id: rs[i].tx_id,
                        attempts: rs[i].attempts,
                        state: RecordState::Complete,
                    },
                )
            } else {
                rs
            }
        },
    }
}

/// The record set after a whole sequence of events, first event first.
pub open spec fn run(rs: Seq<RecordModel>, max_attempts: u64, es: Seq<SubmitterEvent>) -> Seq<
    RecordModel,
>
    decreases es.len(),
{
    if es.len() == 0 {
        rs
    } else {
        run(step(rs, max_attempts, es[0]), max_attempts, es.subrange(1, es.len() as int))
    }
}

/// What `accept` answers for a deposit carrying `h` against this record set.
pub open spec fn accept_outcome(rs: Seq<RecordModel>, h: Seq<u8>) -> AcceptOutcome {
    let i = find_record(rs, h);
    if i < 0 {
        AcceptOutcome::Submit
    } else if is_active(rs[i].state) {
        AcceptOutcome::Resume
    } else {
        AcceptOutcome::Discard
    }
}

/// One direction's relay submitter.
pub struct Submitter {
    /// The persisted record set, keyed by deposit hash.
    pub records: Vec<SubmissionRecord>,
    /// Retries allowed per deposit before it is abandoned.
    pub max_attempts: u64,
}

impl Submitter {
    /// The spec-level record set.
    pub open spec fn models(&self) -> Seq<RecordModel> {
        self.records@.map_values(|r: SubmissionRecord| r@)
    }

    /// Invariant: at least one attempt is allowed, and the record set keeps
    /// [`records_wf`].
    pub open spec fn wf(&self) -> bool {
        &&& self.max_attempts >= 1
        &&& records_wf(self.models(), self.max_attempts)
    }

    /// A submitter with no records yet.
    pub fn new(max_attempts: u64) -> (r: Submitter)
        requires
            max_attempts >= 1,
        ensures
            r.wf(),
            r.models() == Seq::<RecordModel>::empty(),
            r.max_attempts == max_attempts,
    {
        let r = Submitter { records: Vec::new(), max_attempts };
        proof {
            assert(r.models() =~= Seq::<RecordModel>::empty());
        }
        r
    }

    /// Finds the record carrying the hash, if any.
    fn find(&self, hash: &Vec<u8>) -> (r: Option<usize>)
        ensures
            match r {
                Some(i) => i == find_record(self.models(), hash@) && i < self.models().len(),
                None => find_record(self.models(), hash@) == -1,
            },
    {
        let mut i: usize = 0;
        while i < self.records.len()
            invariant
                i <= self.models().len(),
                self.models().len() == self.records@.len(),
                forall|j: int| 0 <= j < i ==> (#[trigger] self.models()[j]).hash != hash@,
            decreases self.records@.len() - i,
        {
            if bytes_eq(&self.records[i].hash, hash) {
                proof {
                    lemma_find_record_props(self.models(), hash@);
                    assert(self.models()[i as int].hash == hash@);
                    let f = find_record(self.models(), hash@);
                    if f == -1 {
                        assert(self.models()[i as int].hash != hash@);
                    } else if f < i {
                        assert(self.models()[f].hash != hash@);
                    } else if f > i {
                        assert(self.models()[i as int].hash != hash@);
                    }
                    assert(f == i);
                }
                return Some(i);
            }
            i = i + 1;
        }
        proof {
            lemma_find_record_props(self.models(), hash@);
            let f = find_record(self.models(), hash@);
            if f >= 0 {
                assert(self.models()[f].hash != hash@);
            }
        }
        None
    }
}

impl Submitter {
    /// Takes one confirmed deposit. A deposit whose hash has no record gets
    /// one -- persisted before any submission attempt -- and is answered
    /// `Submit`; one whose record is still in flight is answered `Resume`;
    /// one whose record is complete or abandoned is answered `Discard`.
    /// A deposit delivered twice is thus never submitted twice.
    pub fn accept(&mut self, deposit: &Deposit) -> (r: AcceptOutcome)
        requires
            old(self).wf(),
        ensures
            final(self).wf(),
            final(self).max_attempts == old(self).max_attempts,
            final(self).models() == step(
                old(self).models(),
                old(self).max_attempts,
                (SubmitterEvent::Accept { hash: deposit.hash@ }),
            ),
            r == accept_outcome(old(self).models(), deposit.hash@),
    {
        match self.find(&deposit.hash) {
            Some(i) => {
                let st = self.records[i].state;
                proof {
                    assert(self.models()[i as int].state == st);
                }
                if st == RecordState::Pending || st == RecordState::Submitted {
                    AcceptOutcome::Resume
                } else {
                    AcceptOutcome::Discard
                }
            },
            None => {
                let ghost old_models = self.models();
                let rec = SubmissionRecord {
                    hash: copy_bytes(&deposit.hash),
                    tx_id: None,
                    attempts: 0,
                    state: RecordState::Pending,
                };
                let ghost rec_model = rec@;
                self.records.push(rec);
                proof {
                    assert(self.models() =~= old_models.push(rec_model));
                    lemma_find_record_props(old_models, deposit.hash@);
                    let rs2 = self.models();
                    assert forall|a: int, b: int| 0 <= a < b < rs2.len() implies (
                    #[trigger] rs2[a]).hash != (#[trigger] rs2[b]).hash by {
                        if b < rs2.len() - 1 {
                            assert(rs2[a] == old_models[a]);
                            assert(rs2[b] == old_models[b]);
                            assert(old_models[a].hash != old_models[b].hash);
                        } else {
                            assert(rs2[a] == old_models[a]);
                            assert(old_models[a].hash != deposit.hash@);
                        }
                    }
                }
                AcceptOutcome::Submit
            },
        }
    }

    /// Records that the destination node accepted the submission for this
    /// hash under the given transaction identifier; the record moves from
    /// pending to submitted and inclusion watching begins. Reports whether
    /// a record changed.
    pub fn on_node_accepted(&mut self, hash: &Vec<u8>, tx_id: Vec<u8>) -> (updated: bool)
        requires
            old(self).wf(),
        ensures
            final(self).wf(),
            final(self).max_attempts == old(self).max_attempts,
            final(self).models() == step(
                old(self).models(),
                old(self).max_attempts,
                (SubmitterEvent::NodeAccepted { hash: hash@, tx_id: tx_id@ }),
            ),
            updated == ({
                let i = find_record(old(self).models(), hash@);
                i >= 0 && old(self).models()[i].state == RecordState::Pending
            }),
    {
        match self.find(hash) {
            Some(i) => {
                if self.records[i].state == RecordState::Pending {
                    let ghost old_models = self.models();
                    let rec = self.records.remove(i);
                    let new_rec = SubmissionRecord {
                        hash: rec.hash,
                        tx_id: Some(tx_id),
                        attempts: rec.attempts,
                        state: RecordState::Submitted,
                    };
                    let ghost new_model = new_rec@;
                    self.records.insert(i, new_rec);
                    proof {
                        assert(self.models() =~= old_models.update(i as int, new_model));
                        lemma_update_preserves_wf(
                            old_models,
                            self.max_attempts,
                            i as int,
                            new_model,
                        );
                    }
                    true
                } else {
                    false
                }
            },
            None => false,
        }
    }

    /// One failed attempt against the record for this hash, counted when
    /// the record stands in the expected state: retried while budget
    /// remains, abandoned for good once the budget is exhausted. Answers
    /// whether the record was abandoned now -- the operator-visible alert.
    fn retry(&mut self, hash: &Vec<u8>, expected: RecordState) -> (alert: bool)
        requires
            old(self).wf(),
            is_active(expected),
        ensures
            final(self).wf(),
            final(self).max_attempts == old(self).max_attempts,
            final(self).models() == retry_step(
                old(self).models(),
                old(self).max_attempts,
                hash@,
                expected,
            ),
            alert == ({
                let i = find_record(old(self).models(), hash@);
                i >= 0 && old(self).models()[i].state == expected && old(self).models()[i].attempts
                    + 1 >= old(self).max_attempts
            }),
    {
        match self.find(hash) {
            Some(i) => {
                if self.records[i].state == expected {
                    let ghost old_models = self.models();
                    let rec = self.records.remove(i);
                    proof {
                        assert(old_models[i as int].attempts == rec.attempts);
                        assert(is_active(old_models[i as int].state));
                        assert(rec.attempts < self.max_attempts);
                    }
                    let new_attempts = rec.attempts + 1;
                    let failed = new_attempts >= self.max_attempts;
                    let new_rec = SubmissionRecord {
                        hash: rec.hash,
                        tx_id: None,
                        attempts: new_attempts,
                        state: if failed {
                            RecordState::Failed
                        } else {
                            RecordState::Pending
                        },
                    };
                    let ghost new_model = new_rec@;
                    self.records.insert(i, new_rec);
                    proof {
                        assert(new_model == bumped(old_models[i as int], self.max_attempts));
                        assert(self.models() =~= old_models.update(i as int, new_model));
                        lemma_update_preserves_wf(
                            old_models,
                            self.max_attempts,
                            i as int,
                            new_model,
                        );
                    }
                    failed
                } else {
                    false
                }
            },
            None => false,
        }
    }

    /// Records a node-level rejection of the submission for this hash.
    /// Answers whether the record was abandoned now, which the caller
    /// surfaces as an operator alert: the deposit is real money and must
    /// not vanish unacknowledged.
    pub fn on_node_rejected(&mut self, hash: &Vec<u8>) -> (alert: bool)
        requires
            old(self).wf(),
        ensures
            final(self).wf(),
            final(self).max_attempts == old(self).max_attempts,
            final(self).models() == step(
                old(self).models(),
                old(self).max_attempts,
                (SubmitterEvent::NodeRejected { hash: hash@ }),
            ),
            alert == ({
                let i = find_record(old(self).models(), hash@);
                i >= 0 && old(self).models()[i].state == RecordState::Pending && old(
                    self,
                ).models()[i].attempts + 1 >= old(self).max_attempts
            }),
    {
        self.retry(hash, RecordState::Pending)
    }

    /// Records that the submitted transaction for this hash was not seen
    /// included within the bounded watch window; the same encoded payload
    /// is retried after the poll interval, within the attempt budget.
    /// Answers whether the record was abandoned now.
    pub fn on_inclusion_timeout(&mut self, hash: &Vec<u8>) -> (alert: bool)
        requires
            old(self).wf(),
        ensures
            final(self).wf(),
            final(self).max_attempts == old(self).max_attempts,
            final(self).models() == step(
                old(self).models(),
                old(self).max_attempts,
                (SubmitterEvent::InclusionTimeout { hash: hash@ }),
            ),
            alert == ({
                let i = find_record(old(self).models(), hash@);
                i >= 0 && old(self).models()[i].state == RecordState::Submitted && old(
                    self,
                ).models()[i].attempts + 1 >= old(self).max_attempts
            }),
    {
        self.retry(hash, RecordState::Submitted)
    }

    /// Records that the submitted transaction for this hash reached the
    /// confirmation depth on the destination chain: the relay of this
    /// deposit is complete, and its hash stays recorded for good. Reports
    /// whether a record changed.
    pub fn on_inclusion_confirmed(&mut self, hash: &Vec<u8>) -> (completed: bool)
        requires
            old(self).wf(),
        ensures
            final(self).wf(),
            final(self).max_attempts == old(self).max_attempts,
            final(self).models() == step(
                old(self).models(),
                old(self).max_attempts,
                (SubmitterEvent::InclusionConfirmed { hash: hash@ }),
            ),
            completed == ({
                let i = find_record(old(self).models(), hash@);
                i >= 0 && old(self).models()[i].state == RecordState::Submitted
            }),
    {
        match self.find(hash) {
            Some(i) => {
                if self.records[i].state == RecordState::Submitted {
                    let ghost old_models = self.models();
                    let rec = self.records.remove(i);
                    let new_rec = SubmissionRecord {
                        hash: rec.hash,
                        tx_id: rec.tx_id,
                        attempts: rec.attempts,
                        state: RecordState::Complete,
                    };
                    let ghost new_model = new_rec@;
                    self.records.insert(i, new_rec);
                    proof {
                        assert(self.models() =~= old_models.update(i as int, new_model));
                        lemma_update_preserves_wf(
                            old_models,
                            self.max_attempts,
                            i as int,
                            new_model,
                        );
                    }
                    true
                } else {
                    false
                }
            },
            None => false,
        }
    }
}

/// A sequence of `k` node rejections for the hash.
pub open spec fn rejections(h: Seq<u8>, k: nat) -> Seq<SubmitterEvent>
    decreases k,
{
    if k == 0 {
        Seq::empty()
    } else {
        rejections(h, (k - 1) as nat).push(SubmitterEvent::NodeRejected { hash: h })
    }
}

/// An index holding the hash makes `has_hash` true.
proof fn lemma_has_hash_witness(rs: Seq<RecordModel>, h: Seq<u8>, i: int)
    requires
        0 <= i < rs.len(),
        rs[i].hash == h,
    ensures
        has_hash(rs, h),
{
    lemma_find_record_props(rs, h);
    if find_record(rs, h) == -1 {
        assert(rs[i].hash != h);
    }
}

/// A step never removes a record and never changes a record's hash.
proof fn lemma_step_structure(rs: Seq<RecordModel>, max_attempts: u64, e: SubmitterEvent)
    ensures
        step(rs, max_attempts, e).len() >= rs.len(),
        forall|i: int|
            0 <= i < rs.len() ==> (#[trigger] step(rs, max_attempts, e)[i]).hash == rs[i].hash,
{
    match e {
        SubmitterEvent::Accept { hash } => {},
        SubmitterEvent::NodeAccepted { hash, tx_id } => {
            lemma_find_record_props(rs, hash);
        },
        SubmitterEvent::NodeRejected { hash } => {
            lemma_find_record_props(rs, hash);
        },
        SubmitterEvent::InclusionTimeout { hash } => {
            lemma_find_record_props(rs, hash);
        },
        SubmitterEvent::InclusionConfirmed { hash } => {
            lemma_find_record_props(rs, hash);
        },
    }
}

/// Extending a record set, or rewriting it without touching any hash,
/// leaves `find_record` where it was for a hash already present.
proof fn lemma_find_stable(rs: Seq<RecordModel>, rs2: Seq<RecordModel>, h: Seq<u8>)
    requires
        rs.len() <= rs2.len(),
        forall|i: int| 0 <= i < rs.len() ==> (#[trigger] rs2[i]).hash == rs[i].hash,
        has_hash(rs, h),
    ensures
        find_record(rs2, h) == find_record(rs, h),
{
    lemma_find_record_props(rs, h);
    lemma_find_record_props(rs2, h);
    let f = find_record(rs, h);
    assert(rs2[f].hash == h);
    lemma_has_hash_witness(rs2, h, f);
    let f2 = find_record(rs2, h);
    if f2 < f {
        assert(rs[f2].hash != h);
        assert(rs2[f2].hash == rs[f2].hash);
    } else if f2 > f {
        assert(rs2[f].hash != h);
    }
}

/// A recorded hash stays recorded across one step.
proof fn lemma_step_keeps_record(rs: Seq<RecordModel>, max_attempts: u64, e: SubmitterEvent, h: Seq<u8>)
    requires
        has_hash(rs, h),
    ensures
        has_hash(step(rs, max_attempts, e), h),
        find_record(step(rs, max_attempts, e), h) == find_record(rs, h),
{
    lemma_find_record_props(rs, h);
    lemma_step_structure(rs, max_attempts, e);
    lemma_find_stable(rs, step(rs, max_attempts, e), h);
}

/// No deposit is lost: a hash once recorded stays recorded across any run
/// of events, so a deposit handed to the submitter is tracked until it
/// completes or is abandoned with an operator-visible alert -- never
/// silently dropped.
pub proof fn lemma_run_keeps_record(
    rs: Seq<RecordModel>,
    max_attempts: u64,
    es: Seq<SubmitterEvent>,
    h: Seq<u8>,
)
    requires
        has_hash(rs, h),
    ensures
        has_hash(run(rs, max_attempts, es), h),
    decreases es.len(),
{
    if es.len() > 0 {
        lemma_step_keeps_record(rs, max_attempts, es[0], h);
        lemma_run_keeps_record(
            step(rs, max_attempts, es[0]),
            max_attempts,
            es.subrange(1, es.len() as int),
            h,
        );
    }
}

/// Accepting a deposit records its hash (or finds it already recorded).
pub proof fn lemma_accept_records_hash(rs: Seq<RecordModel>, max_attempts: u64, h: Seq<u8>)
    ensures
        has_hash(step(rs, max_attempts, (SubmitterEvent::Accept { hash: h })), h),
{
    if !has_hash(rs, h) {
        let rs2 = step(rs, max_attempts, (SubmitterEvent::Accept { hash: h }));
        lemma_has_hash_witness(rs2, h, rs.len() as int);
    }
}

/// At-most-once relay: once a deposit's hash has a submission record, no
/// later delivery of a deposit with the same hash is ever answered `Submit`
/// again, whatever interactions with the destination node come in between.
/// Records are persisted before the first submission attempt and a recorded
/// hash is never dropped, so the destination chain receives at most one
/// mirrored transaction per hash, even across restarts and re-scans.
pub proof fn lemma_at_most_once(
    rs: Seq<RecordModel>,
    max_attempts: u64,
    es: Seq<SubmitterEvent>,
    h: Seq<u8>,
)
    requires
        has_hash(rs, h),
    ensures
        accept_outcome(run(rs, max_attempts, es), h) != AcceptOutcome::Submit,
{
    lemma_run_keeps_record(rs, max_attempts, es, h);
}

/// One step leaves a record that is complete or failed exactly as it is.
proof fn lemma_step_at_terminal(
    rs: Seq<RecordModel>,
    max_attempts: u64,
    e: SubmitterEvent,
    h: Seq<u8>,
)
    requires
        find_record(rs, h) >= 0,
        !is_active(rs[find_record(rs, h)].state),
    ensures
        find_record(step(rs, max_attempts, e), h) == find_record(rs, h),
        step(rs, max_attempts, e)[find_record(rs, h)] == rs[find_record(rs, h)],
{
    let f = find_record(rs, h);
    lemma_find_record_props(rs, h);
    lemma_step_structure(rs, max_attempts, e);
    lemma_has_hash_witness(rs, h, f);
    lemma_find_stable(rs, step(rs, max_attempts, e), h);
    match e {
        SubmitterEvent::Accept { hash } => {},
        SubmitterEvent::NodeAccepted { hash, tx_id } => {
            lemma_find_record_props(rs, hash);
        },
        SubmitterEvent::NodeRejected { hash } => {
            lemma_find_record_props(rs, hash);
        },
        SubmitterEvent::InclusionTimeout { hash } => {
            lemma_find_record_props(rs, hash);
        },
        SubmitterEvent::InclusionConfirmed { hash } => {
            lemma_find_record_props(rs, hash);
        },
    }
}

/// A relay outcome is final: a record that is complete or failed never
/// changes again, whatever events come later. In particular an abandoned
/// deposit is never silently resurrected, and a completed one never leaves
/// the durable already-relayed set.
pub proof fn lemma_terminal_is_permanent(
    rs: Seq<RecordModel>,
    max_attempts: u64,
    es: Seq<SubmitterEvent>,
    h: Seq<u8>,
)
    requires
        find_record(rs, h) >= 0,
        !is_active(rs[find_record(rs, h)].state),
    ensures
        find_record(run(rs, max_attempts, es), h) == find_record(rs, h),
        run(rs, max_attempts, es)[find_record(rs, h)] == rs[find_record(rs, h)],
    decreases es.len(),
{
    if es.len() > 0 {
        lemma_step_at_terminal(rs, max_attempts, es[0], h);
        lemma_terminal_is_permanent(
            step(rs, max_attempts, es[0]),
            max_attempts,
            es.subrange(1, es.len() as int),
            h,
        );
    }
}

/// Running a concatenation runs the two parts in order.
proof fn lemma_run_append(
    rs: Seq<RecordModel>,
    max_attempts: u64,
    es1: Seq<SubmitterEvent>,
    es2: Seq<SubmitterEvent>,
)
    ensures
        run(rs, max_attempts, es1 + es2) == run(run(rs, max_attempts, es1), max_attempts, es2),
    decreases es1.len(),
{
    if es1.len() == 0 {
        assert(es1 + es2 =~= es2);
    } else {
        assert((es1 + es2)[0] == es1[0]);
        assert((es1 + es2).subrange(1, (es1 + es2).len() as int) =~= es1.subrange(
            1,
            es1.len() as int,
        ) + es2);
        lemma_run_append(
            step(rs, max_attempts, es1[0]),
            max_attempts,
            es1.subrange(1, es1.len() as int),
            es2,
        );
    }
}

/// Running a single event is one step.
proof fn lemma_run_single(rs: Seq<RecordModel>, max_attempts: u64, e: SubmitterEvent)
    ensures
        run(rs, max_attempts, seq![e]) == step(rs, max_attempts, e),
{
    let s = seq![e];
    assert(s.len() == 1);
    assert(s[0] == e);
    assert(s.subrange(1, 1) =~= Seq::<SubmitterEvent>::empty());
    assert(run(rs, max_attempts, s) == run(
        step(rs, max_attempts, e),
        max_attempts,
        Seq::<SubmitterEvent>::empty(),
    ));
    assert(run(step(rs, max_attempts, e), max_attempts, Seq::<SubmitterEvent>::empty()) == step(
        rs,
        max_attempts,
        e,
    ));
}

/// Pushing a record for a hash nobody carries keeps the invariant, and the
/// new record is found at the end.
proof fn lemma_push_new_wf(rs: Seq<RecordModel>, max_attempts: u64, h: Seq<u8>)
    requires
        records_wf(rs, max_attempts),
        max_attempts >= 1,
        !has_hash(rs, h),
    ensures
        ({
            let rs2 = rs.push(
                RecordModel { hash: h, tx_id: None, attempts: 0, state: RecordState::Pending },
            );
            records_wf(rs2, max_attempts) && find_record(rs2, h) == rs.len()
        }),
{
    let rs2 = rs.push(
        RecordModel { hash: h, tx_id: None, attempts: 0, state: RecordState::Pending },
    );
    lemma_find_record_props(rs, h);
    assert forall|a: int, b: int| 0 <= a < b < rs2.len() implies (#[trigger] rs2[a]).hash != (
    #[trigger] rs2[b]).hash by {
        if b < rs2.len() - 1 {
            assert(rs2[a] == rs[a]);
            assert(rs2[b] == rs[b]);
            assert(rs[a].hash != rs[b].hash);
        } else {
            assert(rs2[a] == rs[a]);
            assert(rs[a].hash != h);
        }
    }
    lemma_has_hash_witness(rs2, h, rs.len() as int);
    lemma_find_record_props(rs2, h);
    let f = find_record(rs2, h);
    if f < rs.len() {
        assert(rs2[f] == rs[f]);
        lemma_has_hash_witness(rs, h, f);
    }
}

/// `k` rejections within the remaining budget keep the record pending and
/// count exactly `k` more failed attempts.
proof fn lemma_rejections_effect(rs: Seq<RecordModel>, max_attempts: u64, h: Seq<u8>, k: nat)
    requires
        records_wf(rs, max_attempts),
        max_attempts >= 1,
        find_record(rs, h) >= 0,
        rs[find_record(rs, h)].state == RecordState::Pending,
        rs[find_record(rs, h)].attempts + k < max_attempts,
    ensures
        ({
            let rs2 = run(rs, max_attempts, rejections(h, k));
            let f = find_record(rs, h);
            &&& records_wf(rs2, max_attempts)
            &&& rs2.len() == rs.len()
            &&& find_record(rs2, h) == f
            &&& rs2[f].hash == rs[f].hash
            &&& rs2[f].state == RecordState::Pending
            &&& rs2[f].attempts == rs[f].attempts + k
        }),
    decreases k,
{
    let f = find_record(rs, h);
    lemma_find_record_props(rs, h);
    if k == 0 {
    } else {
        lemma_rejections_effect(rs, max_attempts, h, (k - 1) as nat);
        let rs1 = run(rs, max_attempts, rejections(h, (k - 1) as nat));
        assert(rejections(h, k) =~= rejections(h, (k - 1) as nat) + seq![
            SubmitterEvent::NodeRejected { hash: h },
        ]);
        lemma_run_append(
            rs,
            max_attempts,
            rejections(h, (k - 1) as nat),
            seq![SubmitterEvent::NodeRejected { hash: h }],
        );
        lemma_run_single(rs1, max_attempts, (SubmitterEvent::NodeRejected { hash: h }));
        let rs2 = step(rs1, max_attempts, (SubmitterEvent::NodeRejected { hash: h }));
        assert(rs2 == retry_step(rs1, max_attempts, h, RecordState::Pending));
        assert(rs1[f].state == RecordState::Pending);
        assert(rs2 == rs1.update(f, bumped(rs1[f], max_attempts)));
        assert(bumped(rs1[f], max_attempts).state == RecordState::Pending);
        lemma_update_preserves_wf(rs1, max_attempts, f, bumped(rs1[f], max_attempts));
        lemma_has_hash_witness(rs1, h, f);
        lemma_find_stable(rs1, rs2, h);
    }
}

/// Retry within budget: a deposit not yet recorded that is accepted once,
/// rejected by the node `k` times with `k` within the attempt budget, then
/// accepted and finally confirmed, ends with its record complete, carrying
/// the accepted transaction identifier and exactly `k` failed attempts. It
/// is at no point abandoned: had it ever been marked failed, it would have
/// stayed failed (`lemma_terminal_is_permanent`), not ended complete.
pub proof fn lemma_retry_within_budget(
    rs: Seq<RecordModel>,
    max_attempts: u64,
    h: Seq<u8>,
    tx: Seq<u8>,
    k: nat,
)
    requires
        records_wf(rs, max_attempts),
        max_attempts >= 1,
        !has_hash(rs, h),
        k < max_attempts,
    ensures
        ({
            let es = seq![(SubmitterEvent::Accept { hash: h })] + rejections(h, k) + seq![
                (SubmitterEvent::NodeAccepted { hash: h, tx_id: tx }),
                (SubmitterEvent::InclusionConfirmed { hash: h }),
            ];
            let rs2 = run(rs, max_attempts, es);
            let i = find_record(rs2, h);
            &&& i >= 0
            &&& rs2[i].state == RecordState::Complete
            &&& rs2[i].attempts == k
            &&& rs2[i].tx_id == Some(tx)
        }),
{
    let ghost accept_ev = SubmitterEvent::Accept { hash: h };
    let ghost accepted_ev = SubmitterEvent::NodeAccepted { hash: h, tx_id: tx };
    let ghost confirmed_ev = SubmitterEvent::InclusionConfirmed { hash: h };
    let es_head = seq![accept_ev];
    let es_mid = rejections(h, k);
    let es_tail = seq![accepted_ev, confirmed_ev];
    let es = es_head + es_mid + es_tail;

    // The accept step records the hash at the end of the set.
    lemma_run_append(rs, max_attempts, es_head + es_mid, es_tail);
    lemma_run_append(rs, max_attempts, es_head, es_mid);
    assert((es_head + es_mid) + es_tail == es);
    lemma_run_single(rs, max_attempts, accept_ev);
    let rs_a = step(rs, max_attempts, accept_ev);
    assert(rs_a == rs.push(
        RecordModel { hash: h, tx_id: None, attempts: 0, state: RecordState::Pending },
    ));
    lemma_push_new_wf(rs, max_attempts, h);
    let f = rs.len() as int;
    assert(find_record(rs_a, h) == f);

    // The rejections keep it pending and count the attempts.
    lemma_rejections_effect(rs_a, max_attempts, h, k);
    let rs_b = run(rs_a, max_attempts, es_mid);
    assert(rs_b[f].state == RecordState::Pending);
    assert(rs_b[f].attempts == k);
    assert(run(rs, max_attempts, es_head + es_mid) == rs_b);

    // The node acceptance moves it to submitted with the identifier.
    lemma_find_record_props(rs_b, h);
    let rs_c = step(rs_b, max_attempts, accepted_ev);
    assert(rs_c == rs_b.update(
        f,
        RecordModel {
            hash: rs_b[f].hash,
            tx_id: Some(tx),
            attempts: rs_b[f].attempts,
            state: RecordState::Submitted,
        },
    ));
    lemma_update_preserves_wf(
        rs_b,
        max_attempts,
        f,
        RecordModel {
            hash: rs_b[f].hash,
            tx_id: Some(tx),
            attempts: rs_b[f].attempts,
            state: RecordState::Submitted,
        },
    );
    lemma_has_hash_witness(rs_b, h, f);
    lemma_find_stable(rs_b, rs_c, h);

    // The confirmation completes it.
    let rs_d = step(rs_c, max_attempts, confirmed_ev);
    assert(rs_d == rs_c.update(
        f,
        RecordModel {
            hash: rs_c[f].hash,
            tx_id: rs_c[f].tx_id,
            attempts: rs_c[f].attempts,
            state: RecordState::Complete,
        },
    ));
    lemma_has_hash_witness(rs_c, h, f);
    lemma_find_stable(rs_c, rs_d, h);
    assert(run(rs_c, max_attempts, seq![confirmed_ev].subrange(1, 1)) == run(
        rs_c,
        max_attempts,
        Seq::<SubmitterEvent>::empty(),
    )) by {
        assert(seq![confirmed_ev].subrange(1, 1) =~= Seq::<SubmitterEvent>::empty());
    }
    assert(run(rs_b, max_attempts, es_tail) == rs_d) by {
        assert(es_tail[0] == accepted_ev);
        assert(es_tail.subrange(1, 2) =~= seq![confirmed_ev]);
        lemma_run_single(rs_c, max_attempts, confirmed_ev);
    }
    assert(run(rs, max_attempts, es) == rs_d);
}

/// Updating a record in place preserves the record-set invariant, as long
/// as the hash stays and the attempt bounds hold of the new record.
proof fn lemma_update_preserves_wf(
    rs: Seq<RecordModel>,
    max_attempts: u64,
    i: int,
    r: RecordModel,
)
    requires
        records_wf(rs, max_attempts),
        0 <= i < rs.len(),
        r.hash == rs[i].hash,
        is_active(r.state) ==> r.attempts < max_attempts,
        r.attempts <= max_attempts,
    ensures
        records_wf(rs.update(i, r), max_attempts),
{
    let rs2 = rs.update(i, r);
    assert forall|a: int, b: int| 0 <= a < b < rs2.len() implies (#[trigger] rs2[a]).hash != (
    #[trigger] rs2[b]).hash by {
        assert(rs2[a].hash == rs[a].hash);
        assert(rs2[b].hash == rs[b].hash);
        assert(rs[a].hash != rs[b].hash);
    }
}

/// Where a record with the hash stands: `find_record` lands inside the
/// sequence on the first record carrying the hash, or answers -1 when no
/// record carries it.
pub proof fn lemma_find_record_props(rs: Seq<RecordModel>, h: Seq<u8>)
    ensures
        find_record(rs, h) == -1 || (0 <= find_record(rs, h) < rs.len() && rs[find_record(
            rs,
            h,
        )].hash == h && (forall|j: int|
            0 <= j < find_record(rs, h) ==> (#[trigger] rs[j]).hash != h)),
        find_record(rs, h) == -1 ==> (forall|j: int|
            0 <= j < rs.len() ==> (#[trigger] rs[j]).hash != h),
    decreases rs.len(),
{
    if rs.len() == 0 {
    } else if rs[0].hash == h {
    } else {
        let tail = rs.subrange(1, rs.len() as int);
        lemma_find_record_props(tail, h);
        let r = find_record(tail, h);
        if r == -1 {
            assert(find_record(rs, h) == -1);
            assert forall|j: int| 0 <= j < rs.len() implies (#[trigger] rs[j]).hash != h by {
                if j > 0 {
                    assert(rs[j] == tail[j - 1]);
                    assert(tail[j - 1].hash != h);
                }
            }
        } else {
            assert(find_record(rs, h) == r + 1);
            assert(rs[r + 1] == tail[r]);
            assert forall|j: int| 0 <= j < r + 1 implies (#[trigger] rs[j]).hash != h by {
                if j > 0 {
                    assert(rs[j] == tail[j - 1]);
                    assert(tail[j - 1].hash != h);
                }
            }
        }
    }
}

} // verus!
