//! The session: the long-lived state of one loaded program.
//!
//! A [`System`] keeps the running total of emulated cycles, the target of
//! the time slice in progress, the pixel buffer that the machine's video
//! output is collected in, and the level of every controller button. The
//! emulated machine itself stays with the host: the session decides when a
//! step is due, and the host's step function executes it.

use vstd::prelude::*;
use crate::display::{DISPLAY_PIXELS, SCREEN_HEIGHT, SCREEN_WIDTH};
use crate::input::{button_for_key, Button, GamePad};
use crate::pace::{lemma_run_latches_frame, lemma_run_one_more, Action, Pace, StepOutcome};
use crate::timing::{cycle_budget, CYCLES_PER_MICROSECOND};

verus! {

/// The mathematical view of a session.
pub struct SystemView {
    /// The scheduler's bookkeeping.
    pub pace: Pace,
    /// The pixel buffer: one packed colour per pixel, row by row from the
    /// top-left corner.
    pub frame: Seq<u32>,
    /// The level of every controller button.
    pub pad: GamePad,
}

/// Whether `outcomes` and `frames` are the record of a whole slice of
/// `time_microseconds` that leads from the session `before` to the session
/// `after`: `outcomes` are the outcomes that the steps reported, in order,
/// and `frames` is what the pixel buffer held before the first step and
/// after each.
///
/// Every step was due when it was taken, and none is due after the last.
/// The session holds the pixel buffer as the last step left it. The
/// buttons are as they were.
pub open spec fn records_slice(
    before: SystemView,
    time_microseconds: u32,
    outcomes: Seq<StepOutcome>,
    frames: Seq<Seq<u32>>,
    after: SystemView,
) -> bool {
    &&& before.pace.completes_slice(time_microseconds, outcomes)
    &&& after.pace == before.pace.begin(time_microseconds).run(outcomes)
    &&& after.pad == before.pad
    &&& frames.len() == outcomes.len() + 1
    &&& frames[0] == before.frame
    &&& frames[outcomes.len() as int] == after.frame
}

/// Whether no step that the step function `step` executes costs more than
/// `max_step` cycles.
pub open spec fn costs_at_most<F: FnMut(&mut [u32; DISPLAY_PIXELS], GamePad) -> StepOutcome>(
    step: F,
    max_step: nat,
) -> bool {
    forall|args: (&mut [u32; DISPLAY_PIXELS], GamePad), outcome: StepOutcome| #[trigger]
        call_ensures(step, args, outcome) ==> outcome.cycles <= max_step
}

/// One emulation session.
pub struct System {
    emulated_cycles: u64,
    target_cycles: u64,
    frame_rendered: bool,
    video_frame_buffer: Box<[u32; DISPLAY_PIXELS]>,
    game_pad: GamePad,
}

impl View for System {
    type V = SystemView;

    closed spec fn view(&self) -> SystemView {
        SystemView {
            pace: Pace {
                emulated: self.emulated_cycles as nat,
                target: self.target_cycles as nat,
                frame_rendered: self.frame_rendered,
            },
            frame: self.video_frame_buffer@,
            pad: self.game_pad,
        }
    }
}

impl System {
    /// Starts a session: no cycle emulated, no slice in progress, a black
    /// frame, every button released.
    pub fn new() -> (system: System)
        ensures
            system@.pace == Pace::initial(),
            system@.frame == Seq::new(DISPLAY_PIXELS as nat, |i: int| 0u32),
            system@.pad == GamePad::released(),
    {
        System {
            emulated_cycles: 0,
            target_cycles: 0,
            frame_rendered: false,
            video_frame_buffer: Box::new([0u32; DISPLAY_PIXELS]),
            game_pad: GamePad::new(),
        }
    }

    /// Runs the machine for a time slice of `time_microseconds`.
    ///
    /// The target moves one cycle budget beyond the running total. Then
    /// `step` is called again and again, each time with the pixel buffer
    /// to collect the video output of one machine step in and with the
    /// levels of the controller buttons for the machine to read, and each
    /// time its outcome is recorded, until the running total has reached
    /// the target. Returns whether any of those steps completed a frame.
    ///
    /// `step` must make progress: every step has to consume at least one
    /// cycle, or the slice would never end.
    pub fn run_for<F: FnMut(&mut [u32; DISPLAY_PIXELS], GamePad) -> StepOutcome>(
        &mut self,
        time_microseconds: u32,
        mut step: F,
    ) -> (frame_rendered: bool)
        requires
            old(self)@.pace.can_run(time_microseconds),
            forall|args: (&mut [u32; DISPLAY_PIXELS], GamePad)| #[trigger] call_requires(step, args),
            forall|args: (&mut [u32; DISPLAY_PIXELS], GamePad), outcome: StepOutcome| #[trigger]
                call_ensures(step, args, outcome) ==> outcome.cycles >= 1,
        ensures
            exists|outcomes: Seq<StepOutcome>, frames: Seq<Seq<u32>>|
                {
                    &&& #[trigger] records_slice(
                        old(self)@,
                        time_microseconds,
                        outcomes,
                        frames,
                        final(self)@,
                    )
                    &&& forall|i: int|
                        #![trigger outcomes[i]]
                        0 <= i < outcomes.len() ==> outcomes[i].cycles >= 1 && exists|
                            args: (&mut [u32; DISPLAY_PIXELS], GamePad),
                        |
                            #[trigger] call_ensures(step, args, outcomes[i]) && args.0@
                                == frames[i] && final(args.0)@ == frames[i + 1] && args.1 == old(
                                self,
                            )@.pad
                    &&& frame_rendered <==> exists|i: int|
                        0 <= i < outcomes.len() && (#[trigger] outcomes[i]).frame_written
                },
            frame_rendered == final(self)@.pace.frame_rendered,
            final(self)@.pad == old(self)@.pad,
            final(self)@.pace.target == old(self)@.pace.emulated + cycle_budget(
                time_microseconds,
            ),
            final(self)@.pace.emulated >= final(self)@.pace.target,
            forall|max_step: nat|
                0 < max_step && #[trigger] costs_at_most(step, max_step)
                    ==> final(self)@.pace.emulated < final(self)@.pace.target + max_step,
            time_microseconds == 0 ==> !frame_rendered && final(self)@ == (SystemView {
                pace: old(self)@.pace.begin(0),
                ..old(self)@
            }),
    {
        let ghost begun = self@.pace.begin(time_microseconds);
        let ghost mut outcomes: Seq<StepOutcome> = Seq::empty();
        let ghost mut frames: Seq<Seq<u32>> = seq![self@.frame];
        let ghost given = step;
        let mut action = self.begin_slice(time_microseconds);
        while action == Action::Step
            invariant
                step == given,
                forall|args: (&mut [u32; DISPLAY_PIXELS], GamePad)| #[trigger] call_requires(step, args),
                forall|args: (&mut [u32; DISPLAY_PIXELS], GamePad), outcome: StepOutcome| #[trigger]
                    call_ensures(step, args, outcome) ==> outcome.cycles >= 1,
                begun == old(self)@.pace.begin(time_microseconds),
                begun.target + u32::MAX <= u64::MAX,
                begun.steps_taken(outcomes) == outcomes.len(),
                self@.pace == begun.run(outcomes),
                self@.pace.target == begun.target,
                self@.pad == old(self)@.pad,
                action == self@.pace.action(),
                frames.len() == outcomes.len() + 1,
                frames[0] == old(self)@.frame,
                frames[outcomes.len() as int] == self@.frame,
                forall|i: int|
                    #![trigger outcomes[i]]
                    0 <= i < outcomes.len() ==> outcomes[i].cycles >= 1 && exists|
                        args: (&mut [u32; DISPLAY_PIXELS], GamePad),
                    |
                        #[trigger] call_ensures(step, args, outcomes[i]) && args.0@ == frames[i]
                            && final(args.0)@ == frames[i + 1] && args.1 == old(self)@.pad,
                forall|max_step: nat|
                    0 < max_step && #[trigger] costs_at_most(step, max_step)
                        ==> self@.pace.emulated < begun.target + max_step,
            decreases
                    (if self@.pace.emulated < self@.pace.target {
                        self@.pace.target - self@.pace.emulated
                    } else {
                        0
                    }),
        {
            let ghost found = self@.frame;
            let pad = self.game_pad;
            let frame = self.frame_mut();
            let outcome = step(frame, pad);
            proof {
                assert(exists|args: (&mut [u32; DISPLAY_PIXELS], GamePad)|
                    #[trigger] call_ensures(step, args, outcome) && args.0@ == found
                        && final(args.0)@ == self@.frame && args.1 == old(self)@.pad);
                lemma_run_one_more(begun, outcomes, outcome);
                assert forall|max_step: nat|
                    0 < max_step && #[trigger] costs_at_most(
                        step,
                        max_step,
                    ) implies self@.pace.emulated + outcome.cycles < begun.target + max_step by {
                    assert(outcome.cycles <= max_step);
                }
                let ghost earlier_outcomes = outcomes;
                let ghost earlier_frames = frames;
                outcomes = outcomes.push(outcome);
                frames = frames.push(self@.frame);
                assert forall|i: int|
                    #![trigger outcomes[i]]
                    0 <= i < outcomes.len() implies outcomes[i].cycles >= 1 && exists|
                    args: (&mut [u32; DISPLAY_PIXELS], GamePad),
                |
                    #[trigger] call_ensures(step, args, outcomes[i]) && args.0@ == frames[i]
                        && final(args.0)@ == frames[i + 1] && args.1 == old(self)@.pad by {
                    if i < earlier_outcomes.len() {
                        assert(outcomes[i] == earlier_outcomes[i]);
                        assert(frames[i] == earlier_frames[i]);
                        assert(frames[i + 1] == earlier_frames[i + 1]);
                    }
                }
            }
            action = self.step_taken(outcome);
        }
        proof {
            lemma_run_latches_frame(begun, outcomes);
            assert(records_slice(old(self)@, time_microseconds, outcomes, frames, self@));
        }
        self.frame_rendered
    }

    /// Begins a time slice of `time_microseconds`: the target moves one
    /// cycle budget beyond the running total, and the frame flag is
    /// cleared. Returns what the host has to do next; for a slice of no
    /// time that is nothing.
    pub fn begin_slice(&mut self, time_microseconds: u32) -> (action: Action)
        requires
            old(self)@.pace.can_begin(time_microseconds),
        ensures
            final(self)@ == (SystemView {
                pace: old(self)@.pace.begin(time_microseconds),
                ..old(self)@
            }),
            action == final(self)@.pace.action(),
            time_microseconds == 0 ==> action == (Action::Done { frame_rendered: false }),
    {
        assert(CYCLES_PER_MICROSECOND == 2);
        self.target_cycles = self.emulated_cycles + time_microseconds as u64
            * CYCLES_PER_MICROSECOND;
        self.frame_rendered = false;
        self.next_action()
    }

    /// Records the outcome of one machine step: its cycles are added to
    /// the running total, and a completed frame is latched for the rest of
    /// the slice. Returns what the host has to do next.
    pub fn step_taken(&mut self, outcome: StepOutcome) -> (action: Action)
        requires
            old(self)@.pace.can_step(outcome),
        ensures
            final(self)@ == (SystemView { pace: old(self)@.pace.step(outcome), ..old(self)@ }),
            action == final(self)@.pace.action(),
    {
        self.emulated_cycles += outcome.cycles as u64;
        if outcome.frame_written {
            self.frame_rendered = true;
        }
        self.next_action()
    }

    /// Whether a whole slice of `time_microseconds` fits the cycle
    /// counter, so that [`System::run_for`] may be called with it.
    pub fn can_run_for(&self, time_microseconds: u32) -> (fits: bool)
        ensures
            fits == self@.pace.can_run(time_microseconds),
    {
        assert(CYCLES_PER_MICROSECOND == 2);
        let budget: u64 = time_microseconds as u64 * CYCLES_PER_MICROSECOND;
        self.emulated_cycles <= u64::MAX - u32::MAX as u64 - budget
    }

    /// What the host has to do next: another step while the running total
    /// is below the target, nothing more once it has reached it.
    pub fn next_action(&self) -> (action: Action)
        ensures
            action == self@.pace.action(),
    {
        if self.emulated_cycles < self.target_cycles {
            Action::Step
        } else {
            Action::Done { frame_rendered: self.frame_rendered }
        }
    }

    /// Cycles emulated since the session began.
    pub fn emulated_cycles(&self) -> (cycles: u64)
        ensures
            cycles == self@.pace.emulated,
    {
        self.emulated_cycles
    }

    /// Cycle count that the slice begun last has to reach.
    pub fn target_cycles(&self) -> (cycles: u64)
        ensures
            cycles == self@.pace.target,
    {
        self.target_cycles
    }

    /// The levels of the controller buttons.
    pub fn game_pad(&self) -> (pad: GamePad)
        ensures
            pad == self@.pad,
    {
        self.game_pad
    }

    /// Whether `button` is pressed.
    pub fn is_pressed(&self, button: Button) -> (pressed: bool)
        ensures
            pressed == self@.pad.pressed(button),
    {
        self.game_pad.is_pressed(button)
    }

    /// The pixel buffer as it stands.
    pub fn get_frame(&self) -> (frame: &[u32])
        ensures
            frame@ == self@.frame,
            frame@.len() == DISPLAY_PIXELS,
    {
        self.video_frame_buffer.as_slice()
    }

    /// The pixel buffer, for the video output of one machine step to be
    /// written into. Whatever is written is what the session holds once
    /// the borrow ends; nothing else changes.
    pub fn frame_mut(&mut self) -> (frame: &mut [u32; DISPLAY_PIXELS])
        ensures
            frame@ == old(self)@.frame,
            final(self)@ == (SystemView { frame: final(frame)@, ..old(self)@ }),
    {
        &mut *self.video_frame_buffer
    }

    /// The pixel buffer holds exactly one frame, at all times.
    pub proof fn lemma_frame_size(&self)
        ensures
            self@.frame.len() == DISPLAY_PIXELS,
            self@.frame.len() == SCREEN_WIDTH * SCREEN_HEIGHT,
    {
    }

    /// Width of a frame, in pixels.
    pub fn frame_width() -> (width: u32)
        ensures
            width == SCREEN_WIDTH,
            width == 256,
    {
        SCREEN_WIDTH as u32
    }

    /// Height of a frame, in pixels.
    pub fn frame_height() -> (height: u32)
        ensures
            height == SCREEN_HEIGHT,
            height == 240,
    {
        SCREEN_HEIGHT as u32
    }

    /// Reports that the key `key_code` went down: the button that it
    /// stands for is pressed from the next step on. A code that stands for
    /// no button changes nothing.
    pub fn key_down(&mut self, key_code: u8)
        ensures
            final(self)@ == (SystemView {
                pad: old(self)@.pad.after_key_event(key_code, true),
                ..old(self)@
            }),
    {
        self.handle_key_event(key_code, true);
    }

    /// Reports that the key `key_code` went up: the button that it stands
    /// for is released from the next step on. A code that stands for no
    /// button changes nothing.
    pub fn key_up(&mut self, key_code: u8)
        ensures
            final(self)@ == (SystemView {
                pad: old(self)@.pad.after_key_event(key_code, false),
                ..old(self)@
            }),
    {
        self.handle_key_event(key_code, false);
    }

    fn handle_key_event(&mut self, key_code: u8, key_down: bool)
        ensures
            final(self)@ == (SystemView {
                pad: old(self)@.pad.after_key_event(key_code, key_down),
                ..old(self)@
            }),
    {
        let button = match button_for_key(key_code) {
            Some(button) => button,
            None => return,
        };
        self.game_pad.set_button_pressed(button, key_down);
    }
}

} // verus!
