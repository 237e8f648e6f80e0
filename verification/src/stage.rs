//! The suspension discipline shared by the pipeline stages. A stage's poll
//! either has no output yet, yields one item, or reports that the underlying
//! source is exhausted; composing stages turns an upstream poll result into
//! a verdict for the downstream stage. The two composition rules differ in
//! one point only: what a mid-pipeline stage does when its upstream is not
//! ready.

use vstd::prelude::*;

verus! {

/// One stage's poll result: not ready yet, ready with a value, or finished
/// because the underlying source is exhausted.
pub enum StagePoll<T> {
    /// No output this cycle; poll again after the interval.
    Pending,
    /// One value, forwarded downstream before the stage is polled again.
    Item(T),
    /// The stream ended; the pipeline shuts down from here on.
    Finished,
}

/// What a composing stage does with an upstream poll result.
pub enum StepVerdict<T, E> {
    /// Work on this value.
    Yield(T),
    /// Report `Pending` upward; nothing to do this cycle.
    Suspend,
    /// Go on within this cycle without an upstream value.
    Skip,
    /// Report `Finished` upward; shut down.
    End,
    /// Propagate the error upward.
    Fail(E),
}

/// Composition for a stage that produces exactly when its upstream does:
/// an upstream `Pending` suspends the whole stage.
pub open spec fn stream_verdict<T, E>(r: Result<StagePoll<T>, E>) -> StepVerdict<T, E> {
    match r {
        Ok(StagePoll::Item(v)) => StepVerdict::Yield(v),
        Ok(StagePoll::Pending) => StepVerdict::Suspend,
        Ok(StagePoll::Finished) => StepVerdict::End,
        Err(e) => StepVerdict::Fail(e),
    }
}

/// Composition for a stage that has work of its own each cycle: an upstream
/// `Pending` only means no new input, and the stage goes on.
pub open spec fn bridge_verdict<T, E>(r: Result<StagePoll<T>, E>) -> StepVerdict<T, E> {
    match r {
        Ok(StagePoll::Item(v)) => StepVerdict::Yield(v),
        Ok(StagePoll::Pending) => StepVerdict::Skip,
        Ok(StagePoll::Finished) => StepVerdict::End,
        Err(e) => StepVerdict::Fail(e),
    }
}

/// Turns an upstream poll result into this stage's verdict, suspending when
/// the upstream is not ready.
pub fn stream_step<T, E>(r: Result<StagePoll<T>, E>) -> (v: StepVerdict<T, E>)
    ensures
        v == stream_verdict(r),
{
    match r {
        Ok(StagePoll::Item(value)) => StepVerdict::Yield(value),
        Ok(StagePoll::Pending) => StepVerdict::Suspend,
        Ok(StagePoll::Finished) => StepVerdict::End,
        Err(e) => StepVerdict::Fail(e),
    }
}

/// Turns an upstream poll result into this stage's verdict, going on without
/// input when the upstream is not ready.
pub fn bridge_step<T, E>(r: Result<StagePoll<T>, E>) -> (v: StepVerdict<T, E>)
    ensures
        v == bridge_verdict(r),
{
    match r {
        Ok(StagePoll::Item(value)) => StepVerdict::Yield(value),
        Ok(StagePoll::Pending) => StepVerdict::Skip,
        Ok(StagePoll::Finished) => StepVerdict::End,
        Err(e) => StepVerdict::Fail(e),
    }
}

} // verus!
