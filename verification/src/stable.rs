//! Waiting until a file stops growing. The waiting itself (reading the clock,
//! measuring the file, sleeping) is done by the caller; each sample is handed
//! to `StabilityChecker::observe`, which decides what it means.
use vstd::prelude::*;

verus! {

/// How a file is watched until it is ready.
#[derive(Debug, Clone, Copy)]
pub struct StabilityChecker {
    pub check_interval_ms: u64,
    pub required_stable_count: u32,
    pub timeout_sec: u64,
}

/// What has been seen of a file so far.
#[derive(Debug, Clone, Copy)]
pub struct StabilityProgress {
    pub stable_count: u32,
    pub last_size: Option<u64>,
}

/// What a sample means.
#[derive(Debug, Clone, Copy, PartialEq, Eq)]
pub enum StabilityStep {
    /// The size stayed the same long enough: the file is ready.
    Stable,
    /// The deadline passed first: the file is not ready.
    TimedOut,
    /// Sleep for the check interval and sample again.
    Continue,
}

/// The progress and verdict after one sample, taken before the deadline or
/// not, of a file whose size was read as `size` (`None` when it could not be
/// read).
pub open spec fn step_spec(
    required: u32,
    p: StabilityProgress,
    within_deadline: bool,
    size: Option<u64>,
) -> (StabilityProgress, StabilityStep) {
    if !within_deadline {
        (p, StabilityStep::TimedOut)
    } else if size is Some && size == p.last_size {
        let count = if p.stable_count < u32::MAX { (p.stable_count + 1) as u32 } else { u32::MAX };
        let next = StabilityProgress { stable_count: count, last_size: p.last_size };
        if count >= required {
            (next, StabilityStep::Stable)
        } else {
            (next, StabilityStep::Continue)
        }
    } else {
        (StabilityProgress { stable_count: 0, last_size: size }, StabilityStep::Continue)
    }
}

/// Where a file starts: nothing counted, no size seen.
pub open spec fn initial_progress() -> StabilityProgress {
    StabilityProgress { stable_count: 0, last_size: None }
}

/// The progress and last verdict after the given samples, all taken before
/// the deadline, starting from nothing seen.
pub open spec fn feed(required: u32, sizes: Seq<Option<u64>>) -> (StabilityProgress, StabilityStep)
    decreases sizes.len(),
{
    if sizes.len() == 0 {
        (initial_progress(), StabilityStep::Continue)
    } else {
        step_spec(required, feed(required, sizes.drop_last()).0, true, sizes.last())
    }
}

/// How many of the last samples are the same known size, in a row.
pub open spec fn trailing_run(sizes: Seq<Option<u64>>) -> nat
    decreases sizes.len(),
{
    if sizes.len() == 0 || sizes.last() is None {
        0
    } else if sizes.len() >= 2 && sizes[sizes.len() - 2] == sizes.last() {
        trailing_run(sizes.drop_last()) + 1
    } else {
        1
    }
}

/// Whether a sample taken `elapsed_ms` milliseconds after waiting began is
/// still before the deadline `timeout_sec` seconds after it.
pub open spec fn within_deadline(timeout_sec: u64, elapsed_ms: u64) -> bool {
    elapsed_ms < timeout_sec * 1000
}

impl StabilityChecker {
    /// Whether a sample taken `elapsed_ms` milliseconds after waiting began
    /// is still before the deadline. A deadline beyond the range of the
    /// clock is never reached.
    pub fn before_deadline(&self, elapsed_ms: u64) -> (res: bool)
        ensures
            res == within_deadline(self.timeout_sec, elapsed_ms),
    {
        if self.timeout_sec > 18_446_744_073_709_551u64 {
            true
        } else {
            elapsed_ms < self.timeout_sec * 1000
        }
    }

    /// Where every file starts.
    pub fn start(&self) -> (p: StabilityProgress)
        ensures
            p == initial_progress(),
    {
        StabilityProgress { stable_count: 0, last_size: None }
    }

    /// Takes one sample into account: how long after waiting began it was
    /// taken, and the size the file was read to have.
    pub fn observe(&self, progress: &mut StabilityProgress, elapsed_ms: u64, size: Option<u64>) -> (res:
        StabilityStep)
        ensures
            (*final(progress), res) == step_spec(
                self.required_stable_count,
                *old(progress),
                within_deadline(self.timeout_sec, elapsed_ms),
                size,
            ),
    {
        if !self.before_deadline(elapsed_ms) {
            return StabilityStep::TimedOut;
        }
        let same = match (size, progress.last_size) {
            (Some(a), Some(b)) => a == b,
            _ => false,
        };
        if same {
            if progress.stable_count < u32::MAX {
                progress.stable_count = progress.stable_count + 1;
            }
            if progress.stable_count >= self.required_stable_count {
                StabilityStep::Stable
            } else {
                StabilityStep::Continue
            }
        } else {
            progress.stable_count = 0;
            progress.last_size = size;
            StabilityStep::Continue
        }
    }
}

/// After any samples taken before the deadline, the checker has last seen the
/// last sample, and has counted one less than the run of equal known sizes at
/// the end (at most `u32::MAX`).
pub proof fn lemma_progress_counts_trailing_run(required: u32, sizes: Seq<Option<u64>>)
    ensures
        feed(required, sizes).0.last_size == (if sizes.len() == 0 {
            None
        } else {
            sizes.last()
        }),
        feed(required, sizes).0.stable_count == (if trailing_run(sizes) <= 1 {
            0
        } else if trailing_run(sizes) - 1 <= u32::MAX {
            (trailing_run(sizes) - 1) as int
        } else {
            u32::MAX as int
        }),
    decreases sizes.len(),
{
    if sizes.len() > 0 {
        lemma_progress_counts_trailing_run(required, sizes.drop_last());
        let prev = sizes.drop_last();
        if sizes.len() >= 2 {
            assert(prev.last() == sizes[sizes.len() - 2]);
        }
    }
}

/// A file is reported ready exactly when, all samples taken before the
/// deadline, its last samples are the same known size at least twice in a
/// row, and more than `required_stable_count` times.
pub proof fn lemma_stable_iff_size_unchanged(required: u32, sizes: Seq<Option<u64>>)
    ensures
        (feed(required, sizes).1 == StabilityStep::Stable) <==> (trailing_run(sizes) >= 2
            && trailing_run(sizes) - 1 >= required),
{
    if sizes.len() > 0 {
        let prev = sizes.drop_last();
        lemma_progress_counts_trailing_run(required, prev);
        lemma_progress_counts_trailing_run(required, sizes);
        if sizes.len() >= 2 {
            assert(prev.last() == sizes[sizes.len() - 2]);
        }
    }
}

/// Once the deadline has passed the file is reported not ready, whatever its
/// size, and nothing seen so far is changed.
pub proof fn lemma_deadline_times_out(required: u32, p: StabilityProgress, size: Option<u64>)
    ensures
        step_spec(required, p, false, size) == (p, StabilityStep::TimedOut),
{
}

} // verus!
