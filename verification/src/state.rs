//! The lifecycle state machine of a supervised process.
//!
//! This module holds the data model — states, errors, events — together
//! with the spec-level transition function `step` and the proof that any
//! allowed sequence of events attributes at most one live OS process to
//! the supervisor.

use vstd::prelude::*;
use vstd::string::StringExecFns;

use crate::text::dec_i32_string;
use crate::text::dec_text;

verus! {

/// A structured failure reason. Failures are reported to the caller as
/// values, never swallowed; the host decides how to present them.
#[derive(Clone, Debug)]
pub enum SupervisorError {
    /// The OS could not create the process (missing binary, permissions,
    /// resource limits). The message names the attempted command.
    SpawnFailure { message: String },
    /// A start was requested while a process is already supervised.
    AlreadyRunning,
    /// Graceful termination timed out and the forceful kill itself
    /// failed; the process may still be alive.
    KillFailed { message: String },
    /// The child terminated on its own with a nonzero exit code.
    UnexpectedExit { exit_code: i32 },
}

/// Spec-level image of `SupervisorError`.
pub enum ErrorView {
    SpawnFailure { message: Seq<char> },
    AlreadyRunning,
    KillFailed { message: Seq<char> },
    UnexpectedExit { exit_code: int },
}

impl View for SupervisorError {
    type V = ErrorView;

    open spec fn view(&self) -> ErrorView {
        match self {
            SupervisorError::SpawnFailure { message } => ErrorView::SpawnFailure {
                message: message@,
            },
            SupervisorError::AlreadyRunning => ErrorView::AlreadyRunning,
            SupervisorError::KillFailed { message } => ErrorView::KillFailed {
                message: message@,
            },
            SupervisorError::UnexpectedExit { exit_code } => ErrorView::UnexpectedExit {
                exit_code: *exit_code as int,
            },
        }
    }
}

/// The human-readable description of a failure, for the host to
/// present to its user.
pub open spec fn error_text(e: ErrorView) -> Seq<char> {
    match e {
        ErrorView::SpawnFailure { message } => message,
        ErrorView::AlreadyRunning => "a process is already running"@,
        ErrorView::KillFailed { message } => "failed to kill the process: "@ + message,
        ErrorView::UnexpectedExit { exit_code } => "the process exited unexpectedly with code "@
            + dec_text(exit_code),
    }
}

impl SupervisorError {
    /// Renders the failure for the host to present, such as
    /// "background service failed to start: <reason>".
    pub fn message(&self) -> (m: String)
        ensures
            m@ == error_text(self@),
    {
        match self {
            SupervisorError::SpawnFailure { message } => message.clone(),
            SupervisorError::AlreadyRunning => String::from_str("a process is already running"),
            SupervisorError::KillFailed { message } => {
                let mut m = String::from_str("failed to kill the process: ");
                m.append(message.as_str());
                m
            },
            SupervisorError::UnexpectedExit { exit_code } => {
                let mut m = String::from_str("the process exited unexpectedly with code ");
                let code = dec_i32_string(*exit_code);
                m.append(code.as_str());
                m
            },
        }
    }
}

/// The lifecycle state of the supervised process. The OS handle is
/// present, as a process id, only while the process is `Running`.
#[derive(Clone, Debug)]
pub enum ProcessState {
    /// No start has been requested yet.
    NotStarted,
    /// A live OS process with this id is attributed to the supervisor.
    Running { pid: u32 },
    /// The process has terminated and was reaped with this exit code.
    Stopped { exit_code: i32 },
    /// A start failed, or the child died unexpectedly.
    Failed { error: SupervisorError },
}

/// Spec-level image of `ProcessState`.
pub enum StateView {
    NotStarted,
    Running { pid: nat },
    Stopped { exit_code: int },
    Failed { error: ErrorView },
}

impl View for ProcessState {
    type V = StateView;

    open spec fn view(&self) -> StateView {
        match self {
            ProcessState::NotStarted => StateView::NotStarted,
            ProcessState::Running { pid } => StateView::Running { pid: *pid as nat },
            ProcessState::Stopped { exit_code } => StateView::Stopped {
                exit_code: *exit_code as int,
            },
            ProcessState::Failed { error } => StateView::Failed { error: error@ },
        }
    }
}

/// An event reported to the state machine by the host after it has
/// performed the corresponding OS work.
pub enum Event {
    /// A spawn succeeded and produced a live process with this id.
    SpawnOk { pid: nat },
    /// A spawn failed; the message is the full descriptive error.
    SpawnErr { message: Seq<char> },
    /// A requested stop completed: the child exited and was reaped.
    StopExited { exit_code: int },
    /// A requested stop escalated to a kill, and the kill failed.
    KillFailed { message: Seq<char> },
    /// The child exited on its own and was reaped by the watcher.
    ChildExited { exit_code: int },
}

/// Which events may be reported in which state. A spawn outcome may only
/// be reported while no process is live; an exit or kill outcome only
/// while one is.
pub open spec fn event_allowed(s: StateView, e: Event) -> bool {
    match e {
        Event::SpawnOk { .. } => !(s is Running),
        Event::SpawnErr { .. } => !(s is Running),
        Event::StopExited { .. } => s is Running,
        Event::KillFailed { .. } => s is Running,
        Event::ChildExited { .. } => s is Running,
    }
}

/// The transition function of the supervisor. A child that exits on its
/// own is `Stopped` on exit code zero and `Failed` otherwise; a failed
/// kill leaves the state unchanged, since the process may still be
/// alive.
pub open spec fn step(s: StateView, e: Event) -> StateView {
    match e {
        Event::SpawnOk { pid } => StateView::Running { pid },
        Event::SpawnErr { message } => StateView::Failed {
            error: ErrorView::SpawnFailure { message },
        },
        Event::StopExited { exit_code } => StateView::Stopped { exit_code },
        Event::KillFailed { .. } => s,
        Event::ChildExited { exit_code } => if exit_code == 0 {
            StateView::Stopped { exit_code }
        } else {
            StateView::Failed { error: ErrorView::UnexpectedExit { exit_code } }
        },
    }
}

/// How many live OS processes the state attributes to the supervisor.
pub open spec fn live_count(s: StateView) -> nat {
    if s is Running {
        1
    } else {
        0
    }
}

/// How many OS processes an event brings to life (a successful spawn).
pub open spec fn spawn_delta(e: Event) -> int {
    match e {
        Event::SpawnOk { .. } => 1,
        _ => 0,
    }
}

/// How many OS processes an event lays to rest (an exit that was
/// reaped). A failed kill reaps nothing.
pub open spec fn exit_delta(e: Event) -> int {
    match e {
        Event::StopExited { .. } => 1,
        Event::ChildExited { .. } => 1,
        _ => 0,
    }
}

/// The state after a sequence of events.
pub open spec fn run(s: StateView, events: Seq<Event>) -> StateView
    decreases events.len(),
{
    if events.len() == 0 {
        s
    } else {
        run(step(s, events[0]), events.drop_first())
    }
}

/// Whether every event of the sequence is allowed in the state it is
/// reported in.
pub open spec fn trace_allowed(s: StateView, events: Seq<Event>) -> bool
    decreases events.len(),
{
    events.len() == 0 || (event_allowed(s, events[0]) && trace_allowed(
        step(s, events[0]),
        events.drop_first(),
    ))
}

/// The number of live OS processes after the events, counted on the OS
/// side: the starting count plus spawns minus reaped exits.
pub open spec fn os_live(n: int, events: Seq<Event>) -> int
    decreases events.len(),
{
    if events.len() == 0 {
        n
    } else {
        os_live(n + spawn_delta(events[0]) - exit_delta(events[0]), events.drop_first())
    }
}

/// The descriptive message stored and returned when a spawn fails: it
/// names the attempted program, then the OS error.
pub open spec fn spawn_failure_text(program: Seq<char>, os_error: Seq<char>) -> Seq<char> {
    "failed to start "@ + program + ": "@ + os_error
}

/// `needle` occurs contiguously inside `haystack`.
pub open spec fn text_contains(haystack: Seq<char>, needle: Seq<char>) -> bool {
    exists|i: int|
        0 <= i && i + needle.len() <= haystack.len() && #[trigger] haystack.subrange(
            i,
            i + needle.len(),
        ) == needle
}

/// A spawn-failure message always names the attempted program.
pub proof fn lemma_spawn_failure_mentions_program(program: Seq<char>, os_error: Seq<char>)
    ensures
        text_contains(spawn_failure_text(program, os_error), program),
{
    reveal_strlit("failed to start ");
    let h = spawn_failure_text(program, os_error);
    let n: int = "failed to start "@.len() as int;
    assert(h.subrange(n, n + program.len() as int) =~= program);
}

/// One allowed step keeps the OS-side process count equal to what the
/// state attributes.
proof fn lemma_step_preserves_live(s: StateView, e: Event)
    requires
        event_allowed(s, e),
    ensures
        live_count(step(s, e)) == live_count(s) + spawn_delta(e) - exit_delta(e),
{
}

/// Along any allowed trace, the OS-side count of live processes equals
/// the count the final state attributes.
pub proof fn lemma_os_live_matches_state(s: StateView, events: Seq<Event>)
    requires
        trace_allowed(s, events),
    ensures
        os_live(live_count(s) as int, events) == live_count(run(s, events)),
    decreases events.len(),
{
    if events.len() > 0 {
        lemma_step_preserves_live(s, events[0]);
        lemma_os_live_matches_state(step(s, events[0]), events.drop_first());
    }
}

/// Running one more event is stepping from where the trace ended.
pub proof fn lemma_run_snoc(s: StateView, events: Seq<Event>, e: Event)
    ensures
        run(s, events.push(e)) == step(run(s, events), e),
    decreases events.len(),
{
    reveal_with_fuel(run, 2);
    if events.len() == 0 {
        assert(events.push(e)[0] == e);
        assert(events.push(e).drop_first() =~= events);
    } else {
        assert(events.push(e)[0] == events[0]);
        assert(events.push(e).drop_first() =~= events.drop_first().push(e));
        lemma_run_snoc(step(s, events[0]), events.drop_first(), e);
    }
}

/// An allowed trace stays allowed under one more event that is allowed
/// in the state the trace ends in.
pub proof fn lemma_trace_allowed_snoc(s: StateView, events: Seq<Event>, e: Event)
    requires
        trace_allowed(s, events),
        event_allowed(run(s, events), e),
    ensures
        trace_allowed(s, events.push(e)),
    decreases events.len(),
{
    reveal_with_fuel(run, 2);
    reveal_with_fuel(trace_allowed, 2);
    if events.len() == 0 {
        assert(events.push(e)[0] == e);
        assert(events.push(e).drop_first() =~= events);
    } else {
        assert(events.push(e)[0] == events[0]);
        assert(events.push(e).drop_first() =~= events.drop_first().push(e));
        lemma_trace_allowed_snoc(step(s, events[0]), events.drop_first(), e);
    }
}

/// An allowed trace stays allowed when cut short.
pub proof fn lemma_trace_allowed_prefix(s: StateView, events: Seq<Event>, k: int)
    requires
        trace_allowed(s, events),
        0 <= k <= events.len(),
    ensures
        trace_allowed(s, events.take(k)),
    decreases events.len(),
{
    if events.len() > 0 && k > 0 {
        assert(events.take(k)[0] == events[0]);
        assert(events.take(k).drop_first() =~= events.drop_first().take(k - 1));
        lemma_trace_allowed_prefix(step(s, events[0]), events.drop_first(), k - 1);
    }
}

/// For every sequence of events the supervisor allows, starting from
/// `NotStarted`, at every point in time at most one live OS process is
/// attributed to it: no leaks and no double spawns.
pub proof fn lemma_at_most_one_live_process(events: Seq<Event>, k: int)
    requires
        trace_allowed(StateView::NotStarted, events),
        0 <= k <= events.len(),
    ensures
        0 <= os_live(0, events.take(k)) <= 1,
{
    lemma_trace_allowed_prefix(StateView::NotStarted, events, k);
    lemma_os_live_matches_state(StateView::NotStarted, events.take(k));
}

} // verus!
