//! The adaptive threshold search that decides which fan responds to a PWM
//! output driven to full duty.
//!
//! A search for one channel starts at [`INITIAL_THRESHOLD`] RPM. Each step
//! compares every fan's live speed with its cached baseline: exactly one fan
//! whose change exceeds the threshold is a match; otherwise the threshold
//! grows by [`THRESHOLD_STEP`] until the next value would pass
//! [`ABANDON_CEILING`], where the channel is given up as inconclusive.

use vstd::prelude::*;

verus! {

/// Delta threshold, in RPM, of the first step of a search.
pub const INITIAL_THRESHOLD: u32 = 400;

/// Growth of the threshold, in RPM, after an inconclusive step.
pub const THRESHOLD_STEP: u32 = 100;

/// Largest threshold, in RPM, that a search tries.
pub const ABANDON_CEILING: u32 = 1000;

/// Duty value written to a PWM output to stimulate its fan.
pub const STIMULUS_DUTY: i32 = 255;

/// Duty value a PWM output is left at once its search is over.
pub const QUIESCENT_DUTY: i32 = 150;

/// Seconds to wait after the stimulus before the first step.
pub const SETTLE_SECONDS: u64 = 5;

pub open spec fn abs_diff(a: int, b: int) -> int {
    if a >= b {
        a - b
    } else {
        b - a
    }
}

/// Fan `i` changed by more than `threshold` RPM from its baseline.
pub open spec fn responds(baseline: Seq<i32>, live: Seq<i32>, threshold: int, i: int) -> bool {
    abs_diff(live[i] as int, baseline[i] as int) > threshold
}

/// Fan `i` is the one and only fan that responds at `threshold`.
pub open spec fn unique_responder(
    baseline: Seq<i32>,
    live: Seq<i32>,
    threshold: int,
    i: int,
) -> bool {
    &&& 0 <= i < live.len()
    &&& responds(baseline, live, threshold, i)
    &&& forall|j: int|
        0 <= j < live.len() && j != i ==> !#[trigger] responds(baseline, live, threshold, j)
}

pub open spec fn has_unique_responder(baseline: Seq<i32>, live: Seq<i32>, threshold: int) -> bool {
    exists|i: int| unique_responder(baseline, live, threshold, i)
}

/// What one step of a search decides.
#[derive(PartialEq, Eq, Structural, Clone, Copy, Debug)]
pub enum SearchOutcome {
    /// The fan at this position is the unique responder.
    Matched(usize),
    /// No unique responder at any threshold up to the ceiling.
    Abandoned,
    /// Inconclusive: sample again at the grown threshold.
    Continue,
}

/// The decision of one step at `threshold`.
pub open spec fn spec_step(baseline: Seq<i32>, live: Seq<i32>, threshold: int) -> SearchOutcome {
    if has_unique_responder(baseline, live, threshold) {
        SearchOutcome::Matched(
            (choose|i: int| unique_responder(baseline, live, threshold, i)) as usize,
        )
    } else if threshold + THRESHOLD_STEP > ABANDON_CEILING {
        SearchOutcome::Abandoned
    } else {
        SearchOutcome::Continue
    }
}

/// The end of a search from `threshold` on, when every step samples the
/// same `live` speeds.
pub open spec fn spec_search(baseline: Seq<i32>, live: Seq<i32>, threshold: int) -> SearchOutcome
    decreases ABANDON_CEILING - threshold,
{
    match spec_step(baseline, live, threshold) {
        SearchOutcome::Continue => if threshold < ABANDON_CEILING {
            spec_search(baseline, live, threshold + THRESHOLD_STEP)
        } else {
            SearchOutcome::Abandoned
        },
        other => other,
    }
}

pub proof fn lemma_unique_responder_unique(
    baseline: Seq<i32>,
    live: Seq<i32>,
    threshold: int,
    i: int,
    j: int,
)
    requires
        unique_responder(baseline, live, threshold, i),
        unique_responder(baseline, live, threshold, j),
    ensures
        i == j,
{
    if i != j {
        assert(!responds(baseline, live, threshold, j));
    }
}

/// Search state of one PWM channel.
pub struct PairingSearch {
    pub threshold: u32,
}

impl PairingSearch {
    /// The threshold is one of 400, 500, ..., 1000.
    pub open spec fn wf(&self) -> bool {
        &&& INITIAL_THRESHOLD <= self.threshold <= ABANDON_CEILING
        &&& (self.threshold - INITIAL_THRESHOLD) % (THRESHOLD_STEP as int) == 0
    }

    pub fn new() -> (r: PairingSearch)
        ensures
            r.wf(),
            r.threshold == INITIAL_THRESHOLD,
    {
        PairingSearch { threshold: INITIAL_THRESHOLD }
    }

    /// One sampling step: `baseline[i]` is fan `i`'s cached speed and
    /// `live[i]` its speed now. The threshold only ever grows, by one step
    /// after each inconclusive sample, and never passes the ceiling.
    pub fn step(&mut self, baseline: &Vec<i32>, live: &Vec<i32>) -> (r: SearchOutcome)
        requires
            old(self).wf(),
            baseline@.len() == live@.len(),
        ensures
            final(self).wf(),
            r == spec_step(baseline@, live@, old(self).threshold as int),
            r is Continue ==> final(self).threshold == old(self).threshold + THRESHOLD_STEP,
            !(r is Continue) ==> final(self).threshold == old(self).threshold,
            old(self).threshold <= final(self).threshold <= ABANDON_CEILING,
    {
        let t = self.threshold;
        let n = live.len();
        let ghost b = baseline@;
        let ghost l = live@;
        let mut count: usize = 0;
        let mut first: usize = 0;
        let mut second: usize = 0;
        let mut i: usize = 0;
        while i < n
            invariant
                n == l.len(),
                b.len() == l.len(),
                b == baseline@,
                l == live@,
                i <= n,
                count <= 2,
                count == 0 ==> forall|j: int| 0 <= j < i ==> !#[trigger] responds(b, l, t as int, j),
                count >= 1 ==> first < i && responds(b, l, t as int, first as int),
                count == 1 ==> forall|j: int|
                    0 <= j < i && j != first ==> !#[trigger] responds(b, l, t as int, j),
                count == 2 ==> second < i && second != first && responds(
                    b,
                    l,
                    t as int,
                    second as int,
                ),
            decreases n - i,
        {
            let a = live[i] as i64;
            let c = baseline[i] as i64;
            let d: i64 = if a >= c {
                a - c
            } else {
                c - a
            };
            if d > t as i64 {
                if count == 0 {
                    first = i;
                    count = 1;
                } else if count == 1 {
                    second = i;
                    count = 2;
                }
            }
            i = i + 1;
        }
        if count == 1 {
            assert(unique_responder(b, l, t as int, first as int));
            proof {
                let k = choose|k: int| unique_responder(b, l, t as int, k);
                lemma_unique_responder_unique(b, l, t as int, k, first as int);
            }
            return SearchOutcome::Matched(first);
        }
        assert(!has_unique_responder(b, l, t as int)) by {
            if count == 2 {
                assert forall|k: int| !unique_responder(b, l, t as int, k) by {
                    if unique_responder(b, l, t as int, k) {
                        if k == first as int {
                            assert(!responds(b, l, t as int, second as int));
                        } else {
                            assert(!responds(b, l, t as int, first as int));
                        }
                    }
                }
            }
        }
        if t >= ABANDON_CEILING {
            SearchOutcome::Abandoned
        } else {
            self.threshold = t + THRESHOLD_STEP;
            SearchOutcome::Continue
        }
    }
}

/// A single fan that changes by at least 600 RPM, while every other fan
/// stays within 50 RPM of its baseline, is matched at the first step, at
/// the initial threshold.
pub proof fn lemma_single_responder_matched_first(baseline: Seq<i32>, live: Seq<i32>, k: int)
    requires
        baseline.len() == live.len(),
        0 <= k < live.len(),
        abs_diff(live[k] as int, baseline[k] as int) >= 600,
        forall|j: int|
            0 <= j < live.len() && j != k ==> abs_diff(live[j] as int, baseline[j] as int) <= 50,
    ensures
        spec_step(baseline, live, INITIAL_THRESHOLD as int) == SearchOutcome::Matched(k as usize),
        spec_search(baseline, live, INITIAL_THRESHOLD as int) == SearchOutcome::Matched(k as usize),
{
    let t = INITIAL_THRESHOLD as int;
    assert forall|j: int| 0 <= j < live.len() && j != k implies !#[trigger] responds(
        baseline,
        live,
        t,
        j,
    ) by {}
    assert(unique_responder(baseline, live, t, k));
    let c = choose|i: int| unique_responder(baseline, live, t, i);
    lemma_unique_responder_unique(baseline, live, t, c, k);
}

/// Two fans that both change by at least 1000 RPM are never told apart:
/// the search ends without a match. Left out is the one case in which that
/// cannot hold: exactly one fan changes by more than 1000 RPM, which the
/// last step, at the ceiling, matches.
pub proof fn lemma_two_large_responders_abandoned(
    baseline: Seq<i32>,
    live: Seq<i32>,
    a: int,
    b: int,
)
    requires
        baseline.len() == live.len(),
        0 <= a < live.len(),
        0 <= b < live.len(),
        a != b,
        abs_diff(live[a] as int, baseline[a] as int) >= ABANDON_CEILING,
        abs_diff(live[b] as int, baseline[b] as int) >= ABANDON_CEILING,
        !has_unique_responder(baseline, live, ABANDON_CEILING as int),
    ensures
        spec_search(baseline, live, INITIAL_THRESHOLD as int) == SearchOutcome::Abandoned,
{
    lemma_two_large_responders_from(baseline, live, a, b, INITIAL_THRESHOLD as int);
}

proof fn lemma_two_large_responders_from(
    baseline: Seq<i32>,
    live: Seq<i32>,
    a: int,
    b: int,
    t: int,
)
    requires
        baseline.len() == live.len(),
        0 <= a < live.len(),
        0 <= b < live.len(),
        a != b,
        abs_diff(live[a] as int, baseline[a] as int) >= ABANDON_CEILING,
        abs_diff(live[b] as int, baseline[b] as int) >= ABANDON_CEILING,
        !has_unique_responder(baseline, live, ABANDON_CEILING as int),
        t <= ABANDON_CEILING,
        (ABANDON_CEILING - t) % (THRESHOLD_STEP as int) == 0,
    ensures
        spec_search(baseline, live, t) == SearchOutcome::Abandoned,
    decreases ABANDON_CEILING - t,
{
    if t < ABANDON_CEILING {
        assert(!has_unique_responder(baseline, live, t)) by {
            assert forall|k: int| !unique_responder(baseline, live, t, k) by {
                if unique_responder(baseline, live, t, k) {
                    if k == a {
                        assert(!responds(baseline, live, t, b));
                    } else {
                        assert(!responds(baseline, live, t, a));
                    }
                }
            }
        }
        lemma_two_large_responders_from(baseline, live, a, b, t + THRESHOLD_STEP);
    }
}

} // verus!
