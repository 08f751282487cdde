use vstd::prelude::*;

verus! {

/// Messages to the discovery task.
#[derive(Clone, Copy, Debug, PartialEq, Eq, Structural)]
pub enum Control {
    /// Stop for good.
    Shutdown,
    /// Flip the radio's power.
    ToggleRequest,
    /// Flip the radio's power, sent again while an earlier request shows no
    /// effect yet.
    ToggleRetry,
}

/// Where the discovery task stands.
#[derive(Clone, Copy, Debug, PartialEq, Eq, Structural)]
pub enum Phase {
    /// Powered: device events and control messages are awaited together.
    Searching,
    /// Unpowered: only control messages are awaited.
    Idle,
    /// Control messages already queued are taken without waiting, before the
    /// power state is looked at again.
    Draining,
    /// Done; nothing more is awaited.
    Stopped,
}

/// What the discovery task observed while listening for control messages.
#[derive(Clone, Copy, Debug, PartialEq, Eq, Structural)]
pub enum Signal {
    /// A control message arrived.
    Message(Control),
    /// Nothing more can arrive: the control channel is closed (and, while
    /// searching, the device events have ended too).
    Closed,
    /// Nothing is queued right now.
    Empty,
}

/// What the discovery task does next.
#[derive(Clone, Copy, Debug, PartialEq, Eq, Structural)]
pub enum Step {
    /// Keep listening in the current phase.
    Listen,
    /// Start a discovery subscription, then listen.
    StartSearch,
    /// End any discovery subscription, flip the radio's power through the
    /// driver, record the confirmed state in the session and request a
    /// redraw; then listen.
    Toggle,
    /// Terminate.
    Stop,
}

/// The phase a task starts in, or returns to after draining, for the
/// radio's power state.
pub open spec fn resume(powered: bool) -> (Phase, Step) {
    if powered {
        (Phase::Searching, Step::StartSearch)
    } else {
        (Phase::Idle, Step::Listen)
    }
}

/// The discovery task's transition on a signal. Both kinds of toggle
/// request toggle while awaiting; while draining only a first request
/// does, since a queued retry stood for a request that has just been
/// served. Shutdown ends the task from every phase, and so does a closed
/// channel while idle.
pub open spec fn next(phase: Phase, signal: Signal, powered: bool) -> (Phase, Step) {
    match phase {
        Phase::Stopped => (Phase::Stopped, Step::Stop),
        Phase::Searching | Phase::Idle => match signal {
            Signal::Message(Control::Shutdown) => (Phase::Stopped, Step::Stop),
            Signal::Message(_) => (Phase::Draining, Step::Toggle),
            Signal::Closed => if phase == Phase::Searching {
                (Phase::Draining, Step::Listen)
            } else {
                (Phase::Stopped, Step::Stop)
            },
            Signal::Empty => (phase, Step::Listen),
        },
        Phase::Draining => match signal {
            Signal::Message(Control::Shutdown) => (Phase::Stopped, Step::Stop),
            Signal::Message(Control::ToggleRequest) => (Phase::Draining, Step::Toggle),
            Signal::Message(Control::ToggleRetry) => (Phase::Draining, Step::Listen),
            Signal::Closed | Signal::Empty => resume(powered),
        },
    }
}

/// The decisions of the discovery task, which owns the radio driver: when
/// to search, when to toggle the power and when to stop.
pub struct Finder {
    pub phase: Phase,
}

impl Finder {
    /// A task for a radio in the given power state; it searches at once
    /// when the radio is powered.
    pub fn new(powered: bool) -> (r: (Finder, Step))
        ensures
            (r.0.phase, r.1) == resume(powered),
    {
        let (phase, step) = resume_for(powered);
        (Finder { phase }, step)
    }

    /// Advances on `signal`; `powered` is the radio's power state as last
    /// confirmed by the driver.
    pub fn step(&mut self, signal: Signal, powered: bool) -> (r: Step)
        ensures
            (final(self).phase, r) == next(old(self).phase, signal, powered),
    {
        let (phase, step) = match self.phase {
            Phase::Stopped => (Phase::Stopped, Step::Stop),
            Phase::Searching | Phase::Idle => match signal {
                Signal::Message(Control::Shutdown) => (Phase::Stopped, Step::Stop),
                Signal::Message(_) => (Phase::Draining, Step::Toggle),
                Signal::Closed => match self.phase {
                    Phase::Searching => (Phase::Draining, Step::Listen),
                    _ => (Phase::Stopped, Step::Stop),
                },
                Signal::Empty => (self.phase, Step::Listen),
            },
            Phase::Draining => match signal {
                Signal::Message(Control::Shutdown) => (Phase::Stopped, Step::Stop),
                Signal::Message(Control::ToggleRequest) => (Phase::Draining, Step::Toggle),
                Signal::Message(Control::ToggleRetry) => (Phase::Draining, Step::Listen),
                Signal::Closed | Signal::Empty => resume_for(powered),
            },
        };
        self.phase = phase;
        step
    }
}

fn resume_for(powered: bool) -> (r: (Phase, Step))
    ensures
        r == resume(powered),
{
    if powered {
        (Phase::Searching, Step::StartSearch)
    } else {
        (Phase::Idle, Step::Listen)
    }
}

} // verus!
