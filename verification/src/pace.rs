//! The cycle budget scheduler.
//!
//! A time slice is carried out by alternating between the scheduler, which
//! decides, and the emulated machine, which works: the scheduler says
//! whether another step is due, the machine executes that step, and its
//! outcome is reported back. [`Pace`] is the mathematical model of the
//! scheduler's bookkeeping, and this module states what holds of every
//! slice carried out that way.

use vstd::prelude::*;
use crate::timing::cycle_budget;

verus! {

/// What one step of the emulated machine reports back to the scheduler.
#[derive(Clone, Copy, Debug, PartialEq, Eq, Structural)]
pub struct StepOutcome {
    /// Emulated cycles that the step consumed.
    pub cycles: u32,
    /// Whether the step completed a full raster pass of the display.
    pub frame_written: bool,
}

/// What the host has to do next to carry out the running time slice.
#[derive(Clone, Copy, Debug, PartialEq, Eq, Structural)]
pub enum Action {
    /// The budget is not used up: execute one machine step and report its
    /// outcome.
    Step,
    /// The budget is used up: the slice is over.
    Done {
        /// Whether any step of the slice completed a frame.
        frame_rendered: bool,
    },
}

/// The scheduler's bookkeeping, over unbounded numbers.
pub struct Pace {
    /// Cycles emulated since the session began.
    pub emulated: nat,
    /// Cycle count that the running slice has to reach.
    pub target: nat,
    /// Whether a step of the running slice has completed a frame.
    pub frame_rendered: bool,
}

impl Pace {
    /// The bookkeeping of a fresh session.
    pub open spec fn initial() -> Pace {
        Pace { emulated: 0, target: 0, frame_rendered: false }
    }

    /// Whether the budget of the running slice is not yet used up.
    pub open spec fn step_due(self) -> bool {
        self.emulated < self.target
    }

    /// The bookkeeping after a slice of `elapsed_microseconds` has begun:
    /// the target lies one budget beyond the running total, and no frame
    /// has been seen yet.
    pub open spec fn begin(self, elapsed_microseconds: u32) -> Pace {
        Pace {
            emulated: self.emulated,
            target: self.emulated + cycle_budget(elapsed_microseconds),
            frame_rendered: false,
        }
    }

    /// The bookkeeping after one more step has been reported: its cycles
    /// are added to the running total, and a completed frame is latched.
    pub open spec fn step(self, outcome: StepOutcome) -> Pace {
        Pace {
            emulated: self.emulated + outcome.cycles as nat,
            target: self.target,
            frame_rendered: self.frame_rendered || outcome.frame_written,
        }
    }

    /// What the host has to do in this state.
    pub open spec fn action(self) -> Action {
        if self.step_due() {
            Action::Step
        } else {
            Action::Done { frame_rendered: self.frame_rendered }
        }
    }

    /// How many of the outcomes that the machine would report, in order,
    /// the slice takes before its budget is used up.
    pub open spec fn steps_taken(self, outcomes: Seq<StepOutcome>) -> nat
        decreases outcomes.len(),
    {
        if !self.step_due() || outcomes.len() == 0 {
            0
        } else {
            1 + self.step(outcomes[0]).steps_taken(outcomes.skip(1))
        }
    }

    /// The bookkeeping after the slice has been driven over the outcomes
    /// that the machine would report, in order: steps are taken as long as
    /// one is due and the outcomes last.
    pub open spec fn run(self, outcomes: Seq<StepOutcome>) -> Pace
        decreases outcomes.len(),
    {
        if !self.step_due() || outcomes.len() == 0 {
            self
        } else {
            self.step(outcomes[0]).run(outcomes.skip(1))
        }
    }

    /// Whether the running total and the budget of a slice of
    /// `elapsed_microseconds` fit the counter together.
    pub open spec fn can_begin(self, elapsed_microseconds: u32) -> bool {
        self.emulated + cycle_budget(elapsed_microseconds) <= u64::MAX
    }

    /// Whether the running total and the cycles of `outcome` fit the
    /// counter together.
    pub open spec fn can_step(self, outcome: StepOutcome) -> bool {
        self.emulated + outcome.cycles <= u64::MAX
    }

    /// Whether a whole slice of `elapsed_microseconds` fits the counter,
    /// whatever its steps cost: the last step starts below the target and
    /// may run beyond it by the most that one step can report.
    pub open spec fn can_run(self, elapsed_microseconds: u32) -> bool {
        self.emulated + cycle_budget(elapsed_microseconds) + u32::MAX <= u64::MAX
    }

    /// Whether `outcomes` are the steps of one whole slice of
    /// `elapsed_microseconds` begun in this state: every one of them was
    /// due when it was taken, and after the last no further step is due.
    pub open spec fn completes_slice(
        self,
        elapsed_microseconds: u32,
        outcomes: Seq<StepOutcome>,
    ) -> bool {
        &&& self.begin(elapsed_microseconds).steps_taken(outcomes) == outcomes.len()
        &&& !self.begin(elapsed_microseconds).run(outcomes).step_due()
    }
}

/// A slice of no time asks for no step: whatever the machine would report,
/// none of it is taken, and the slice is over at once with no frame
/// rendered.
pub proof fn lemma_zero_slice_takes_no_step(pace: Pace, outcomes: Seq<StepOutcome>)
    ensures
        !pace.begin(0).step_due(),
        pace.begin(0).steps_taken(outcomes) == 0,
        pace.begin(0).run(outcomes) == pace.begin(0),
        pace.begin(0).action() == (Action::Done { frame_rendered: false }),
        pace.begin(0).emulated == pace.emulated,
{
}

/// A slice takes the outcomes in order and stops for good: it takes no
/// more outcomes than there are, it ends where the steps that it took
/// lead, one after the other, and it stops early only because no further
/// step is due.
pub proof fn lemma_run_takes_a_prefix(pace: Pace, outcomes: Seq<StepOutcome>)
    ensures
        pace.steps_taken(outcomes) <= outcomes.len(),
        pace.run(outcomes) == pace.run(outcomes.take(pace.steps_taken(outcomes) as int)),
        pace.steps_taken(outcomes) < outcomes.len() ==> !pace.run(outcomes).step_due(),
    decreases outcomes.len(),
{
    if pace.step_due() && outcomes.len() > 0 {
        let next = pace.step(outcomes[0]);
        let rest = outcomes.skip(1);
        lemma_run_takes_a_prefix(next, rest);
        let taken = pace.steps_taken(outcomes);
        assert(taken == 1 + next.steps_taken(rest));
        let prefix = outcomes.take(taken as int);
        assert(prefix[0] == outcomes[0]);
        assert(prefix.skip(1) =~= rest.take(next.steps_taken(rest) as int));
    } else {
        assert(outcomes.take(0) =~= Seq::<StepOutcome>::empty());
    }
}

/// One more step of a running slice: if every outcome so far was taken
/// and a step is still due, the next outcome is taken too, and leads where
/// one step from the state reached so far leads.
pub proof fn lemma_run_one_more(pace: Pace, outcomes: Seq<StepOutcome>, next: StepOutcome)
    requires
        pace.steps_taken(outcomes) == outcomes.len(),
        pace.run(outcomes).step_due(),
    ensures
        pace.run(outcomes.push(next)) == pace.run(outcomes).step(next),
        pace.steps_taken(outcomes.push(next)) == outcomes.len() + 1,
    decreases outcomes.len(),
{
    let longer = outcomes.push(next);
    if outcomes.len() == 0 {
        assert(longer[0] == next);
        assert(longer.skip(1) =~= Seq::<StepOutcome>::empty());
        assert(pace.step(next).run(longer.skip(1)) == pace.step(next));
        assert(pace.step(next).steps_taken(longer.skip(1)) == 0);
    } else {
        assert(pace.step_due());
        assert(longer[0] == outcomes[0]);
        assert(longer.skip(1) =~= outcomes.skip(1).push(next));
        lemma_run_one_more(pace.step(outcomes[0]), outcomes.skip(1), next);
    }
}

/// While a slice runs, the target stands still and the running total
/// never goes back.
pub proof fn lemma_run_keeps_target(pace: Pace, outcomes: Seq<StepOutcome>)
    ensures
        pace.run(outcomes).target == pace.target,
        pace.run(outcomes).emulated >= pace.emulated,
        pace.steps_taken(outcomes) == 0 ==> pace.run(outcomes) == pace,
    decreases outcomes.len(),
{
    if pace.step_due() && outcomes.len() > 0 {
        lemma_run_keeps_target(pace.step(outcomes[0]), outcomes.skip(1));
    }
}

/// A slice never runs more than one step beyond its target: if no step
/// costs more than `max_step` cycles, the running total stays below the
/// target plus `max_step`.
pub proof fn lemma_run_overshoot(pace: Pace, outcomes: Seq<StepOutcome>, max_step: nat)
    requires
        forall|i: int| 0 <= i < outcomes.len() ==> (#[trigger] outcomes[i]).cycles <= max_step,
        pace.emulated < pace.target + max_step,
    ensures
        pace.run(outcomes).emulated < pace.target + max_step,
    decreases outcomes.len(),
{
    if pace.step_due() && outcomes.len() > 0 {
        let next = pace.step(outcomes[0]);
        let rest = outcomes.skip(1);
        assert forall|i: int| 0 <= i < rest.len() implies (#[trigger] rest[i]).cycles
            <= max_step by {
            assert(rest[i] == outcomes[i + 1]);
        }
        lemma_run_overshoot(next, rest, max_step);
    }
}

/// The budget of a slice is consumed in full and never by more than one
/// step's worth: once a slice of `elapsed_microseconds` has run to its end
/// on steps that cost at most `max_step` cycles each, the running total
/// has grown by at least the cycle budget, and by less than the budget
/// plus `max_step`.
pub proof fn lemma_slice_consumes_budget(
    pace: Pace,
    elapsed_microseconds: u32,
    outcomes: Seq<StepOutcome>,
    max_step: nat,
)
    requires
        0 < max_step,
        forall|i: int| 0 <= i < outcomes.len() ==> (#[trigger] outcomes[i]).cycles <= max_step,
        !pace.begin(elapsed_microseconds).run(outcomes).step_due(),
    ensures
        pace.begin(elapsed_microseconds).run(outcomes).emulated >= pace.emulated + cycle_budget(
            elapsed_microseconds,
        ),
        pace.begin(elapsed_microseconds).run(outcomes).emulated < pace.emulated + cycle_budget(
            elapsed_microseconds,
        ) + max_step,
{
    let begun = pace.begin(elapsed_microseconds);
    lemma_run_keeps_target(begun, outcomes);
    lemma_run_overshoot(begun, outcomes, max_step);
}

/// The frame flag of a running slice is set exactly if it was set before
/// or one of the steps taken since completed a frame.
pub proof fn lemma_run_latches_frame(pace: Pace, outcomes: Seq<StepOutcome>)
    ensures
        pace.run(outcomes).frame_rendered <==> (pace.frame_rendered || exists|i: int|
            0 <= i < pace.steps_taken(outcomes) && (#[trigger] outcomes[i]).frame_written),
    decreases outcomes.len(),
{
    if pace.step_due() && outcomes.len() > 0 {
        let next = pace.step(outcomes[0]);
        let rest = outcomes.skip(1);
        lemma_run_latches_frame(next, rest);
        lemma_run_takes_a_prefix(next, rest);
        let taken = pace.steps_taken(outcomes);
        assert(taken == 1 + next.steps_taken(rest));
        if pace.run(outcomes).frame_rendered && !pace.frame_rendered {
            if outcomes[0].frame_written {
                assert(0 <= 0 < taken && outcomes[0].frame_written);
            } else {
                let j = choose|j: int|
                    0 <= j < next.steps_taken(rest) && (#[trigger] rest[j]).frame_written;
                assert(rest[j] == outcomes[j + 1]);
                assert(0 <= j + 1 < taken && outcomes[j + 1].frame_written);
            }
        }
        if exists|i: int| 0 <= i < taken && (#[trigger] outcomes[i]).frame_written {
            let i = choose|i: int| 0 <= i < taken && (#[trigger] outcomes[i]).frame_written;
            if i > 0 {
                assert(rest[i - 1] == outcomes[i]);
                assert(0 <= i - 1 < next.steps_taken(rest) && rest[i - 1].frame_written);
            }
        }
    }
}

/// A slice reports a rendered frame if and only if at least one of the
/// steps taken within it completed a frame; several completed frames
/// still give a single `true`.
pub proof fn lemma_frame_rendered_iff_a_step_wrote(
    pace: Pace,
    elapsed_microseconds: u32,
    outcomes: Seq<StepOutcome>,
)
    ensures
        pace.begin(elapsed_microseconds).run(outcomes).frame_rendered <==> exists|i: int|
            0 <= i < pace.begin(elapsed_microseconds).steps_taken(outcomes) && (
            #[trigger] outcomes[i]).frame_written,
{
    lemma_run_latches_frame(pace.begin(elapsed_microseconds), outcomes);
}

/// Once set, the frame flag stays set for the rest of the slice.
pub proof fn lemma_frame_flag_is_latched(pace: Pace, outcomes: Seq<StepOutcome>)
    requires
        pace.frame_rendered,
    ensures
        pace.run(outcomes).frame_rendered,
{
    lemma_run_latches_frame(pace, outcomes);
}

/// Targets never recede: a slice that begins after the one before it has
/// run to its end aims at least as high, because each target is reckoned
/// from the running total.
pub proof fn lemma_target_never_recedes(pace: Pace, elapsed_microseconds: u32)
    requires
        !pace.step_due(),
    ensures
        pace.begin(elapsed_microseconds).target >= pace.target,
        pace.begin(elapsed_microseconds).target >= pace.emulated,
{
}

/// A slice is bounded: if every step costs at least one cycle, the slice
/// is over after at most as many steps as its budget has cycles.
pub proof fn lemma_slice_is_bounded(
    pace: Pace,
    elapsed_microseconds: u32,
    outcomes: Seq<StepOutcome>,
)
    requires
        forall|i: int| 0 <= i < outcomes.len() ==> (#[trigger] outcomes[i]).cycles >= 1,
        outcomes.len() >= cycle_budget(elapsed_microseconds),
    ensures
        !pace.begin(elapsed_microseconds).run(outcomes).step_due(),
        pace.begin(elapsed_microseconds).steps_taken(outcomes) <= cycle_budget(
            elapsed_microseconds,
        ),
{
    lemma_run_is_bounded(pace.begin(elapsed_microseconds), outcomes);
}

/// If every step costs at least one cycle, a running slice takes at most
/// as many steps as cycles are missing, and is over if the outcomes last
/// that long.
pub proof fn lemma_run_is_bounded(pace: Pace, outcomes: Seq<StepOutcome>)
    requires
        forall|i: int| 0 <= i < outcomes.len() ==> (#[trigger] outcomes[i]).cycles >= 1,
    ensures
        pace.step_due() ==> pace.steps_taken(outcomes) <= pace.target - pace.emulated,
        !pace.step_due() ==> pace.steps_taken(outcomes) == 0,
        outcomes.len() >= pace.target - pace.emulated ==> !pace.run(outcomes).step_due(),
    decreases outcomes.len(),
{
    if pace.step_due() && outcomes.len() > 0 {
        let next = pace.step(outcomes[0]);
        let rest = outcomes.skip(1);
        assert forall|i: int| 0 <= i < rest.len() implies (#[trigger] rest[i]).cycles >= 1 by {
            assert(rest[i] == outcomes[i + 1]);
        }
        lemma_run_is_bounded(next, rest);
    }
}

} // verus!
