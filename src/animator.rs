use vstd::prelude::*;

verus! {

/// The inputs the animation reacts to.
#[derive(Clone, Copy, PartialEq, Eq, Structural, Debug)]
pub enum InputEvent {
    /// Begin advancing time.
    Start,
    /// End the run.
    Quit,
}

/// Whether time advances from frame to frame.
#[derive(Clone, Copy, PartialEq, Eq, Structural, Debug)]
pub enum Phase {
    Idle,
    Animating,
}

/// The phase after `event` in phase `p`; `None` when the run ends.
pub open spec fn next_phase(p: Phase, event: InputEvent) -> Option<Phase> {
    match event {
        InputEvent::Start => Some(Phase::Animating),
        InputEvent::Quit => None,
    }
}

/// The decisions of the animation loop: which phase it is in, whether it goes
/// on after an input, whether time advances, and how long each frame waits.
pub struct Animator {
    phase: Phase,
    max_framerate: u8,
}

impl Animator {
    pub closed spec fn phase_spec(&self) -> Phase {
        self.phase
    }

    /// The highest number of frames per second.
    pub closed spec fn framerate(&self) -> nat {
        self.max_framerate as nat
    }

    pub closed spec fn wf(&self) -> bool {
        self.max_framerate > 0
    }

    /// An animation that has not started yet.
    pub fn new(max_framerate: u8) -> (r: Animator)
        requires
            max_framerate > 0,
        ensures
            r.wf(),
            r.phase_spec() == Phase::Idle,
            r.framerate() == max_framerate,
    {
        Animator { phase: Phase::Idle, max_framerate }
    }

    pub fn phase(&self) -> (r: Phase)
        ensures
            r == self.phase_spec(),
    {
        self.phase
    }

    /// Takes one input; returns whether the run goes on.
    pub fn on_event(&mut self, event: InputEvent) -> (keep_running: bool)
        requires
            old(self).wf(),
        ensures
            final(self).wf(),
            final(self).framerate() == old(self).framerate(),
            keep_running == next_phase(old(self).phase_spec(), event) is Some,
            keep_running ==> Some(final(self).phase_spec()) == next_phase(
                old(self).phase_spec(),
                event,
            ),
            !keep_running ==> final(self).phase_spec() == old(self).phase_spec(),
    {
        match event {
            InputEvent::Start => {
                self.phase = Phase::Animating;
                true
            },
            InputEvent::Quit => false,
        }
    }

    /// Whether time advances at the end of the current frame.
    pub fn is_animating(&self) -> (r: bool)
        ensures
            r == (self.phase_spec() == Phase::Animating),
    {
        match self.phase {
            Phase::Animating => true,
            Phase::Idle => false,
        }
    }

    /// The fixed wait after each frame, in nanoseconds: ⌊10⁹ / F⌋ for the
    /// highest frame rate F.
    pub fn frame_interval_nanos(&self) -> (r: u32)
        requires
            self.wf(),
        ensures
            r == 1_000_000_000nat / self.framerate(),
    {
        1_000_000_000u32 / (self.max_framerate as u32)
    }
}

} // verus!
