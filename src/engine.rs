//! The pairing run over all PWM outputs of a group, as a state machine:
//! the caller performs each action that [`PairingRun::action`] names (a
//! sample, a write, a wait) and reports back through the matching method.
//! Channels are searched one after another, never at once.

use vstd::prelude::*;
use crate::hwmon::{baseline_of, Hwmon};
use crate::fans::Fan;
use crate::pairing::{spec_step, PairingSearch, SearchOutcome, INITIAL_THRESHOLD, QUIESCENT_DUTY,
    SETTLE_SECONDS, STIMULUS_DUTY, THRESHOLD_STEP};

verus! {

/// Where a run stands.
#[derive(PartialEq, Eq, Structural, Clone, Copy, Debug)]
pub enum RunStage {
    /// Before anything: the fans' baseline is still to be taken.
    Baseline,
    /// The current output is still to be driven to full duty.
    Stimulus,
    /// The current output's search is under way.
    Search,
    /// The current output's search ended with this outcome.
    Concluded(SearchOutcome),
}

/// What the caller is to do next.
#[derive(PartialEq, Eq, Structural, Clone, Copy, Debug)]
pub enum RunAction {
    /// Sample every fan and pass the readings to [`Hwmon::update_fan_speeds`],
    /// then call [`PairingRun::baseline_captured`].
    CaptureBaseline,
    /// Write `duty` to output `pwm`, wait `settle_seconds`, then call
    /// [`PairingRun::stimulated`].
    Stimulate { pwm: usize, duty: i32, settle_seconds: u64 },
    /// Sample every fan's live speed and pass them to [`PairingRun::sampled`].
    Sample { pwm: usize },
    /// Report `outcome` for output `pwm`, write `duty` to it, then call
    /// [`PairingRun::concluded`].
    Conclude { pwm: usize, outcome: SearchOutcome, duty: i32 },
    /// Every output has been searched.
    Done,
}

pub struct PairingRun {
    /// Position of the output being searched.
    pub pwm: usize,
    pub stage: RunStage,
    pub search: PairingSearch,
}

pub open spec fn spec_action(run: PairingRun, pwm_count: int) -> RunAction {
    match run.stage {
        RunStage::Baseline => RunAction::CaptureBaseline,
        RunStage::Stimulus => if run.pwm < pwm_count {
            RunAction::Stimulate {
                pwm: run.pwm,
                duty: STIMULUS_DUTY,
                settle_seconds: SETTLE_SECONDS,
            }
        } else {
            RunAction::Done
        },
        RunStage::Search => RunAction::Sample { pwm: run.pwm },
        RunStage::Concluded(outcome) => RunAction::Conclude {
            pwm: run.pwm,
            outcome,
            duty: QUIESCENT_DUTY,
        },
    }
}

impl PairingRun {
    pub open spec fn wf(&self) -> bool {
        self.search.wf()
    }

    pub fn new() -> (r: PairingRun)
        ensures
            r.wf(),
            r.pwm == 0,
            r.stage == RunStage::Baseline,
    {
        PairingRun { pwm: 0, stage: RunStage::Baseline, search: PairingSearch::new() }
    }

    /// The next action, for a group with `pwm_count` outputs.
    pub fn action(&self, pwm_count: usize) -> (r: RunAction)
        ensures
            r == spec_action(*self, pwm_count as int),
    {
        match self.stage {
            RunStage::Baseline => RunAction::CaptureBaseline,
            RunStage::Stimulus => if self.pwm < pwm_count {
                RunAction::Stimulate {
                    pwm: self.pwm,
                    duty: STIMULUS_DUTY,
                    settle_seconds: SETTLE_SECONDS,
                }
            } else {
                RunAction::Done
            },
            RunStage::Search => RunAction::Sample { pwm: self.pwm },
            RunStage::Concluded(outcome) => RunAction::Conclude {
                pwm: self.pwm,
                outcome,
                duty: QUIESCENT_DUTY,
            },
        }
    }

    /// The baseline has been taken: the first output is next.
    pub fn baseline_captured(&mut self)
        requires
            old(self).stage == RunStage::Baseline,
        ensures
            final(self).wf() == old(self).wf(),
            final(self).pwm == old(self).pwm,
            final(self).search == old(self).search,
            final(self).stage == RunStage::Stimulus,
    {
        self.stage = RunStage::Stimulus;
    }

    /// The output is at full duty and has settled: its search starts at the
    /// initial threshold.
    pub fn stimulated(&mut self)
        requires
            old(self).stage == RunStage::Stimulus,
        ensures
            final(self).wf(),
            final(self).pwm == old(self).pwm,
            final(self).search.threshold == INITIAL_THRESHOLD,
            final(self).stage == RunStage::Search,
    {
        self.search = PairingSearch::new();
        self.stage = RunStage::Search;
    }

    /// One sample of the live speeds: a step of the current search, which
    /// pairs a unique responder with the output. The run concludes the
    /// output unless the step was inconclusive.
    pub fn sampled(&mut self, hwmon: &mut Hwmon, live: &Vec<i32>) -> (r: SearchOutcome)
        requires
            old(self).wf(),
            old(self).stage == RunStage::Search,
            old(self).pwm < old(hwmon).pwms@.len(),
            live@.len() == old(hwmon).fans@.len(),
        ensures
            final(self).wf(),
            final(self).pwm == old(self).pwm,
            r == spec_step(
                baseline_of(old(hwmon).fans@),
                live@,
                old(self).search.threshold as int,
            ),
            r is Continue ==> final(self).stage == RunStage::Search
                && final(self).search.threshold == old(self).search.threshold + THRESHOLD_STEP,
            !(r is Continue) ==> final(self).stage == RunStage::Concluded(r),
            old(self).search.threshold <= final(self).search.threshold,
            final(hwmon).pwms == old(hwmon).pwms,
            final(hwmon).path == old(hwmon).path,
            r matches SearchOutcome::Matched(i) ==> i < old(hwmon).fans@.len()
                && final(hwmon).fans@ == old(hwmon).fans@.update(
                i as int,
                Fan {
                    paired_pwm: Some(old(hwmon).pwms@[old(self).pwm as int]),
                    ..old(hwmon).fans@[i as int]
                },
            ),
            !(r is Matched) ==> final(hwmon).fans == old(hwmon).fans,
    {
        let r = hwmon.pair_step(self.pwm, &mut self.search, live);
        match r {
            SearchOutcome::Continue => {},
            _ => {
                self.stage = RunStage::Concluded(r);
            },
        }
        r
    }

    /// The output is back at the quiescent duty: the next output is due.
    pub fn concluded(&mut self)
        requires
            old(self).stage is Concluded,
            old(self).pwm < usize::MAX,
        ensures
            final(self).wf() == old(self).wf(),
            final(self).pwm == old(self).pwm + 1,
            final(self).stage == RunStage::Stimulus,
    {
        self.pwm = self.pwm + 1;
        self.stage = RunStage::Stimulus;
    }
}

} // verus!
