//! The pool's bookkeeping and decisions: everything the controller and its workers
//! decide, as functions of the shared counters they observe.
//!
//! The threads, the lock and the condition that carry these decisions out live with
//! the caller; each function here is one decision point of that protocol.
use vstd::prelude::*;

verus! {

/// Why a pool could not be built.
#[derive(PartialEq, Eq, Structural, Debug, Clone, Copy)]
pub enum PoolError {
    /// The thread cap is zero.
    ConfigurationError,
}

/// The thread cap a pool is built with, from the cap the caller asked for (if any) and
/// the parallelism the host reports.
pub open spec fn max_threads_for(requested: Option<usize>, detected: usize) -> Result<
    usize,
    PoolError,
> {
    let cap = match requested {
        Some(n) => n,
        None => detected,
    };
    if cap == 0 {
        Err(PoolError::ConfigurationError)
    } else {
        Ok(cap)
    }
}

/// Settles the thread cap: an explicit cap is used as given, an absent one falls back
/// to the host's parallelism; a cap of zero is refused rather than clamped.
pub fn resolve_max_threads(requested: Option<usize>, detected: usize) -> (r: Result<
    usize,
    PoolError,
>)
    ensures
        r == max_threads_for(requested, detected),
{
    let cap = match requested {
        Some(n) => n,
        None => detected,
    };
    if cap == 0 {
        Err(PoolError::ConfigurationError)
    } else {
        Ok(cap)
    }
}

/// The value a compare-and-swap on the thread count should install when it reads
/// `observed`: one more, while that stays within the cap; `None` means no growth.
pub open spec fn reserved(observed: usize, max_threads: usize) -> Option<usize> {
    if observed < max_threads {
        Some((observed + 1) as usize)
    } else {
        None
    }
}

/// The reserve step of elastic growth: what to swap the observed thread count for.
pub fn reserve_slot(observed: usize, max_threads: usize) -> (r: Option<usize>)
    ensures
        r == reserved(observed, max_threads),
{
    if observed < max_threads {
        Some(observed + 1)
    } else {
        None
    }
}

/// A submission asks for a new worker only when no worker is waiting for work.
pub fn should_grow(idle_threads: usize) -> (r: bool)
    ensures
        r == (idle_threads == 0),
{
    idle_threads == 0
}

/// What a worker does when it (re)examines the queue under the lock.
#[derive(PartialEq, Eq, Structural, Debug, Clone, Copy)]
pub enum WakeDecision {
    /// Block again on the condition, with the idle timeout.
    Wait,
    /// Leave the idle set and pop the front task.
    TakeTask,
    /// Give the thread's slot back and end the thread.
    Retire,
}

/// The worker's decision on the queue and quit flag it sees; `timed_out` says whether
/// the last wait ended by the idle timeout. Queued work is always taken, even after quit,
/// so a pool drains its queue before its workers end.
pub open spec fn wake_decision(queue_empty: bool, quit: bool, timed_out: bool) -> WakeDecision {
    if !queue_empty {
        WakeDecision::TakeTask
    } else if quit || timed_out {
        WakeDecision::Retire
    } else {
        WakeDecision::Wait
    }
}

/// Decides a worker's next step.
pub fn on_wake(queue_empty: bool, quit: bool, timed_out: bool) -> (r: WakeDecision)
    ensures
        r == wake_decision(queue_empty, quit, timed_out),
        r == WakeDecision::Retire ==> queue_empty,
        queue_empty && timed_out ==> r == WakeDecision::Retire,
{
    if !queue_empty {
        WakeDecision::TakeTask
    } else if quit || timed_out {
        WakeDecision::Retire
    } else {
        WakeDecision::Wait
    }
}

/// Whether a wait for completion that snapshotted `target` submissions may return.
pub fn completion_reached(completed: usize, target: usize) -> (r: bool)
    ensures
        r == (completed >= target),
{
    completed >= target
}

/// A change of the thread count.
pub enum ThreadCountEvent {
    /// A submitter's compare-and-swap from the value it observed.
    Reserve { observed: usize },
    /// A retiring worker, or a spawn that failed after its reservation, gives a slot back.
    Release,
}

/// The thread count after one event, from `current`: a reservation installs
/// `reserved(observed, max)` only when the count still equals `observed` (the swap fails
/// otherwise); a release takes one off.
pub open spec fn count_after(current: usize, max_threads: usize, e: ThreadCountEvent) -> usize {
    match e {
        ThreadCountEvent::Reserve { observed } => if observed == current {
            match reserved(observed, max_threads) {
                Some(n) => n,
                None => current,
            }
        } else {
            current
        },
        ThreadCountEvent::Release => if current > 0 {
            (current - 1) as usize
        } else {
            0
        },
    }
}

/// The thread count after a run of events.
pub open spec fn count_after_all(
    current: usize,
    max_threads: usize,
    events: Seq<ThreadCountEvent>,
) -> usize
    decreases events.len(),
{
    if events.len() == 0 {
        current
    } else {
        count_after_all(
            count_after(current, max_threads, events[0]),
            max_threads,
            events.drop_first(),
        )
    }
}

/// However submissions and retirements interleave, the thread count never exceeds
/// the cap: every growth goes through a reservation, which refuses at the cap.
pub proof fn lemma_thread_count_within_cap(
    current: usize,
    max_threads: usize,
    events: Seq<ThreadCountEvent>,
)
    requires
        current <= max_threads,
    ensures
        forall|k: int|
            0 <= k <= events.len() ==> #[trigger] count_after_all(
                current,
                max_threads,
                events.subrange(0, k),
            ) <= max_threads,
    decreases events.len(),
{
    if events.len() > 0 {
        let next = count_after(current, max_threads, events[0]);
        lemma_thread_count_within_cap(next, max_threads, events.drop_first());
        assert forall|k: int| 0 <= k <= events.len() implies #[trigger] count_after_all(
            current,
            max_threads,
            events.subrange(0, k),
        ) <= max_threads by {
            if k > 0 {
                assert(events.subrange(0, k).drop_first() =~= events.drop_first().subrange(0, k - 1));
                assert(count_after_all(current, max_threads, events.subrange(0, k))
                    == count_after_all(next, max_threads, events.drop_first().subrange(0, k - 1)));
            }
        }
    }
}

/// `n` slots given back.
pub open spec fn releases(n: nat) -> Seq<ThreadCountEvent> {
    Seq::new(n, |i: int| ThreadCountEvent::Release)
}

/// An idle pool shrinks to nothing: with the queue empty and no quit, every worker
/// whose wait runs out retires, and each retirement takes one off the thread count, so
/// after `k` of them `current - k` threads are left, and none after `current`.
pub proof fn lemma_idle_pool_scales_down(current: usize, max_threads: usize)
    ensures
        wake_decision(true, false, true) == WakeDecision::Retire,
        forall|k: nat|
            k <= current ==> #[trigger] count_after_all(current, max_threads, releases(k)) == current
                - k,
        count_after_all(current, max_threads, releases(current as nat)) == 0,
{
    assert forall|k: nat| k <= current implies #[trigger] count_after_all(
        current,
        max_threads,
        releases(k),
    ) == current - k by {
        lemma_releases_count_down(current, max_threads, k);
    }
}

proof fn lemma_releases_count_down(current: usize, max_threads: usize, k: nat)
    requires
        k <= current,
    ensures
        count_after_all(current, max_threads, releases(k)) == current - k,
    decreases k,
{
    if k > 0 {
        assert(releases(k).drop_first() =~= releases((k - 1) as nat));
        lemma_releases_count_down((current - 1) as usize, max_threads, (k - 1) as nat);
    }
}

} // verus!
