//! Startup sequencing for the desktop shell.
//!
//! The orchestrator owns the order in which the shell comes up: launch the
//! server task, wait for its listener to report readiness, open the window
//! and point its rendering surface at the server, then run the event loop
//! until the window is closed, at which point the whole process exits. The
//! host performs each requested action and feeds the resulting event back
//! into [`step`]; every decision is taken here, none in the host loop.
//! Readiness is an explicit signal from the listener, not a timed wait, so
//! the window is never opened before the server can accept a connection.
//! Any startup failure aborts the process; nothing is retried.

use vstd::prelude::*;

verus! {

/// Where startup stands.
#[derive(PartialEq, Eq, Structural, Clone, Copy, Debug)]
pub enum Phase {
    /// Nothing has happened yet.
    Boot,
    /// The server task was launched; its listener may not be bound yet.
    ServerStarting,
    /// The listener is bound and accepting connections.
    ServerReady,
    /// The window and its rendering surface are up; the event loop runs.
    Running,
    /// The process is ending.
    Done,
}

/// What the host reports back to the orchestrator.
#[derive(PartialEq, Eq, Structural, Clone, Copy, Debug)]
pub enum Event {
    /// The host is ready to begin startup.
    Init,
    /// The server's listener is bound and accepting connections.
    ListenerBound,
    /// The server's listener could not be bound.
    BindFailed,
    /// The window and its rendering surface were created.
    SurfaceUp,
    /// The window or its rendering surface could not be created.
    StartupFailed,
    /// The window was asked to close.
    CloseRequested,
    /// Any other event-loop event.
    OtherEvent,
}

/// What the orchestrator asks the host to do next.
#[derive(PartialEq, Eq, Structural, Clone, Copy, Debug)]
pub enum Action {
    /// Spawn the server task with a readiness signal.
    LaunchServer,
    /// Create the window and attach the rendering surface, pointed at the
    /// server's address.
    OpenWindow,
    /// Keep pumping the event loop.
    KeepRunning,
    /// End the process normally.
    ExitProcess,
    /// Abort the process: a startup step failed and nothing is retried.
    AbortProcess,
    /// The event does not belong to the current phase; do nothing.
    Ignore,
}

/// The transition table: the next phase and the action the host must take.
pub open spec fn step_spec(phase: Phase, event: Event) -> (Phase, Action) {
    match (phase, event) {
        (Phase::Boot, Event::Init) => (Phase::ServerStarting, Action::LaunchServer),
        (Phase::ServerStarting, Event::ListenerBound) => (Phase::ServerReady, Action::OpenWindow),
        (Phase::ServerStarting, Event::BindFailed) => (Phase::Done, Action::AbortProcess),
        (Phase::ServerReady, Event::SurfaceUp) => (Phase::Running, Action::KeepRunning),
        (Phase::ServerReady, Event::StartupFailed) => (Phase::Done, Action::AbortProcess),
        (Phase::Running, Event::CloseRequested) => (Phase::Done, Action::ExitProcess),
        (Phase::Running, Event::OtherEvent) => (Phase::Running, Action::KeepRunning),
        (p, _) => (p, Action::Ignore),
    }
}

/// Takes one startup step.
pub fn step(phase: Phase, event: Event) -> (r: (Phase, Action))
    ensures
        r == step_spec(phase, event),
{
    match (phase, event) {
        (Phase::Boot, Event::Init) => (Phase::ServerStarting, Action::LaunchServer),
        (Phase::ServerStarting, Event::ListenerBound) => (Phase::ServerReady, Action::OpenWindow),
        (Phase::ServerStarting, Event::BindFailed) => (Phase::Done, Action::AbortProcess),
        (Phase::ServerReady, Event::SurfaceUp) => (Phase::Running, Action::KeepRunning),
        (Phase::ServerReady, Event::StartupFailed) => (Phase::Done, Action::AbortProcess),
        (Phase::Running, Event::CloseRequested) => (Phase::Done, Action::ExitProcess),
        (Phase::Running, Event::OtherEvent) => (Phase::Running, Action::KeepRunning),
        (p, _) => (p, Action::Ignore),
    }
}

/// How far along startup a phase is.
pub open spec fn phase_rank(p: Phase) -> int {
    match p {
        Phase::Boot => 0,
        Phase::ServerStarting => 1,
        Phase::ServerReady => 2,
        Phase::Running => 3,
        Phase::Done => 4,
    }
}

/// The window is opened only on the listener's readiness signal: startup
/// never races a server that is not yet accepting connections.
pub proof fn lemma_window_only_after_ready(phase: Phase, event: Event)
    ensures
        step_spec(phase, event).1 == Action::OpenWindow <==> phase == Phase::ServerStarting
            && event == Event::ListenerBound,
{
}

/// The process exits normally only on a close request from the open window.
pub proof fn lemma_exit_only_on_close(phase: Phase, event: Event)
    ensures
        step_spec(phase, event).1 == Action::ExitProcess <==> phase == Phase::Running
            && event == Event::CloseRequested,
{
}

/// Startup never moves backwards.
pub proof fn lemma_phase_monotone(phase: Phase, event: Event)
    ensures
        phase_rank(step_spec(phase, event).0) >= phase_rank(phase),
{
}

/// The phase an event sequence leads to.
pub open spec fn run_from(phase: Phase, events: Seq<Event>) -> Phase
    decreases events.len(),
{
    if events.len() == 0 {
        phase
    } else {
        run_from(step_spec(phase, events[0]).0, events.skip(1))
    }
}

/// Startup never moves backwards over a whole event sequence.
pub proof fn lemma_run_monotone(phase: Phase, events: Seq<Event>)
    ensures
        phase_rank(run_from(phase, events)) >= phase_rank(phase),
    decreases events.len(),
{
    if events.len() > 0 {
        lemma_phase_monotone(phase, events[0]);
        lemma_run_monotone(step_spec(phase, events[0]).0, events.skip(1));
    }
}

} // verus!
