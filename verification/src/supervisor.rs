//! The supervisor itself: one instance owns the lifecycle of one
//! external process.
//!
//! The host drives it in two phases per operation: it first asks for a
//! decision (`begin_start`, `begin_stop`), then performs the OS work and
//! reports the outcome (`finish_start`, `finish_stop`, `notice_exit`).
//! Each reporting method's contract ties the new state to the spec-level
//! `step` function, so a host that reports outcomes faithfully generates
//! an allowed trace in the sense of `state::trace_allowed`.

use vstd::prelude::*;
use vstd::string::StringExecFns;

use crate::state::ErrorView;
use crate::state::Event;
use crate::state::ProcessState;
use crate::state::StateView;
use crate::state::SupervisorError;
use crate::state::event_allowed;
use crate::state::lemma_at_most_one_live_process;
use crate::state::lemma_run_snoc;
use crate::state::lemma_trace_allowed_snoc;
use crate::state::run;
use crate::state::os_live;
use crate::state::spawn_failure_text;
use crate::state::step;
use crate::state::trace_allowed;

verus! {

/// Builds the message stored and returned when a spawn fails; the
/// result is exactly `spawn_failure_text` of the two views, so it names
/// the attempted program.
pub fn spawn_failure_message(program: &str, os_error: &str) -> (r: String)
    ensures
        r@ == spawn_failure_text(program@, os_error@),
{
    let mut r = String::from_str("failed to start ");
    r.append(program);
    r.append(": ");
    r.append(os_error);
    r
}

/// Clones a list of strings; the spec-level contents are unchanged.
fn clone_strings(v: &Vec<String>) -> (r: Vec<String>)
    ensures
        r.deep_view() == v.deep_view(),
{
    let mut r: Vec<String> = Vec::new();
    let mut i: usize = 0;
    while i < v.len()
        invariant
            i <= v.len(),
            r@.len() == i,
            forall|j: int| 0 <= j < i ==> r@[j] == v@[j],
        decreases v.len() - i,
    {
        r.push(v[i].clone());
        i = i + 1;
    }
    proof {
        assert(r.deep_view() =~= v.deep_view());
    }
    r
}

/// What the host must spawn: an executable path and its arguments,
/// fixed at construction of the supervisor.
#[derive(Clone, Debug)]
pub struct SpawnRequest {
    pub program: String,
    pub args: Vec<String>,
}

/// Spec-level image of a command line.
pub struct CommandView {
    pub program: Seq<char>,
    pub args: Seq<Seq<char>>,
}

impl View for SpawnRequest {
    type V = CommandView;

    open spec fn view(&self) -> CommandView {
        CommandView { program: self.program@, args: self.args.deep_view() }
    }
}

/// Supervises exactly one external process: its command line, fixed at
/// construction, and its current lifecycle state.
pub struct Supervisor {
    program: String,
    args: Vec<String>,
    state: ProcessState,
    events: Ghost<Seq<Event>>,
}

/// Spec-level image of a supervisor.
pub struct SupervisorView {
    pub command: CommandView,
    pub state: StateView,
}

impl View for Supervisor {
    type V = SupervisorView;

    closed spec fn view(&self) -> SupervisorView {
        SupervisorView {
            command: CommandView { program: self.program@, args: self.args.deep_view() },
            state: self.state@,
        }
    }
}

impl Supervisor {
    /// Every event that has been reported to this supervisor, oldest
    /// first.
    pub closed spec fn history(&self) -> Seq<Event> {
        self.events@
    }

    /// Well-formedness: the recorded history is an allowed trace from
    /// `NotStarted` that yields the current state. The constructor
    /// establishes it and every method preserves it.
    pub closed spec fn wf(&self) -> bool {
        &&& trace_allowed(StateView::NotStarted, self.events@)
        &&& run(StateView::NotStarted, self.events@) == self.state@
    }

    /// A new supervisor for the given command line; nothing has been
    /// started yet.
    pub fn new(program: String, args: Vec<String>) -> (s: Supervisor)
        ensures
            s@.command.program == program@,
            s@.command.args == args.deep_view(),
            s@.state is NotStarted,
            s.wf(),
            s.history() == Seq::<Event>::empty(),
    {
        Supervisor {
            program,
            args,
            state: ProcessState::NotStarted,
            events: Ghost(Seq::empty()),
        }
    }

    /// The current state, as a snapshot; never blocks, never mutates.
    pub fn status(&self) -> (st: &ProcessState)
        ensures
            st@ == self@.state,
    {
        &self.state
    }

    /// Decides a start. While a process is live the request is rejected
    /// with `AlreadyRunning` (the documented policy: reject, do not
    /// restart); otherwise the host receives the command line to spawn,
    /// and must report the outcome through `finish_start`.
    pub fn begin_start(&self) -> (r: Result<SpawnRequest, SupervisorError>)
        ensures
            self@.state is Running ==> (r matches Err(e) && e@ is AlreadyRunning),
            !(self@.state is Running) ==> (r matches Ok(req) && req@.program
                == self@.command.program && req@.args == self@.command.args),
    {
        match &self.state {
            ProcessState::Running { .. } => Err(SupervisorError::AlreadyRunning),
            _ => Ok(
                SpawnRequest {
                    program: self.program.clone(),
                    args: clone_strings(&self.args),
                },
            ),
        }
    }

    /// Records the outcome of the spawn the host performed after
    /// `begin_start` handed it a request. On success the process with
    /// the reported id is now the one live supervised process; on
    /// failure the state is `Failed` and the returned error carries a
    /// message naming the attempted program.
    pub fn finish_start(&mut self, outcome: Result<u32, String>) -> (r: Result<
        u32,
        SupervisorError,
    >)
        requires
            old(self).wf(),
            !(old(self)@.state is Running),
        ensures
            final(self).wf(),
            final(self)@.command == old(self)@.command,
            (match outcome {
                Ok(pid) => {
                    &&& event_allowed(old(self)@.state, Event::SpawnOk { pid: pid as nat })
                    &&& final(self)@.state == step(
                        old(self)@.state,
                        Event::SpawnOk { pid: pid as nat },
                    )
                    &&& final(self).history() == old(self).history().push(
                        Event::SpawnOk { pid: pid as nat },
                    )
                    &&& r matches Ok(p) && p == pid
                },
                Err(os_error) => {
                    &&& event_allowed(
                        old(self)@.state,
                        Event::SpawnErr {
                            message: spawn_failure_text(old(self)@.command.program, os_error@),
                        },
                    )
                    &&& final(self)@.state == step(
                        old(self)@.state,
                        Event::SpawnErr {
                            message: spawn_failure_text(old(self)@.command.program, os_error@),
                        },
                    )
                    &&& final(self).history() == old(self).history().push(
                        Event::SpawnErr {
                            message: spawn_failure_text(old(self)@.command.program, os_error@),
                        },
                    )
                    &&& r matches Err(e) && e@ == (ErrorView::SpawnFailure {
                        message: spawn_failure_text(old(self)@.command.program, os_error@),
                    })
                },
            }),
    {
        match outcome {
            Ok(pid) => {
                proof {
                    let ev = Event::SpawnOk { pid: pid as nat };
                    lemma_trace_allowed_snoc(StateView::NotStarted, self.events@, ev);
                    lemma_run_snoc(StateView::NotStarted, self.events@, ev);
                }
                self.state = ProcessState::Running { pid };
                self.events = Ghost(self.events@.push(Event::SpawnOk { pid: pid as nat }));
                Ok(pid)
            },
            Err(os_error) => {
                let message = spawn_failure_message(self.program.as_str(), os_error.as_str());
                proof {
                    let ev = Event::SpawnErr { message: message@ };
                    lemma_trace_allowed_snoc(StateView::NotStarted, self.events@, ev);
                    lemma_run_snoc(StateView::NotStarted, self.events@, ev);
                }
                self.state = ProcessState::Failed {
                    error: SupervisorError::SpawnFailure { message: message.clone() },
                };
                self.events = Ghost(self.events@.push(Event::SpawnErr { message: message@ }));
                Err(SupervisorError::SpawnFailure { message })
            },
        }
    }

    /// Decides a stop. If a process is live the host must terminate the
    /// process with the returned id (gracefully, with a bounded wait,
    /// then forcefully) and report through `finish_stop`; in any other
    /// state stopping is a no-op and never an error, and there is
    /// nothing to report.
    pub fn begin_stop(&self) -> (r: Option<u32>)
        ensures
            (self@.state matches StateView::Running { pid } ==> (r matches Some(p) && p as nat
                == pid)),
            !(self@.state is Running) ==> r is None,
    {
        match &self.state {
            ProcessState::Running { pid } => Some(*pid),
            _ => None,
        }
    }

    /// Records the outcome of the stop the host performed after
    /// `begin_stop` named a live process. An exit that was reaped moves
    /// the state to `Stopped` with the exit code; a failed forceful
    /// kill is reported back, not swallowed, and the process is still
    /// counted as live.
    pub fn finish_stop(&mut self, outcome: StopOutcome) -> (r: Result<i32, SupervisorError>)
        requires
            old(self).wf(),
            old(self)@.state is Running,
        ensures
            final(self).wf(),
            final(self)@.command == old(self)@.command,
            (match outcome {
                StopOutcome::Exited { exit_code } => {
                    &&& event_allowed(
                        old(self)@.state,
                        Event::StopExited { exit_code: exit_code as int },
                    )
                    &&& final(self)@.state == step(
                        old(self)@.state,
                        Event::StopExited { exit_code: exit_code as int },
                    )
                    &&& final(self).history() == old(self).history().push(
                        Event::StopExited { exit_code: exit_code as int },
                    )
                    &&& r matches Ok(c) && c == exit_code
                },
                StopOutcome::KillError { message } => {
                    &&& event_allowed(old(self)@.state, Event::KillFailed { message: message@ })
                    &&& final(self)@.state == step(
                        old(self)@.state,
                        Event::KillFailed { message: message@ },
                    )
                    &&& final(self).history() == old(self).history().push(
                        Event::KillFailed { message: message@ },
                    )
                    &&& r matches Err(e) && e@ == (ErrorView::KillFailed { message: message@ })
                },
            }),
    {
        match outcome {
            StopOutcome::Exited { exit_code } => {
                proof {
                    let ev = Event::StopExited { exit_code: exit_code as int };
                    lemma_trace_allowed_snoc(StateView::NotStarted, self.events@, ev);
                    lemma_run_snoc(StateView::NotStarted, self.events@, ev);
                }
                self.state = ProcessState::Stopped { exit_code };
                self.events = Ghost(
                    self.events@.push(Event::StopExited { exit_code: exit_code as int }),
                );
                Ok(exit_code)
            },
            StopOutcome::KillError { message } => {
                proof {
                    let ev = Event::KillFailed { message: message@ };
                    lemma_trace_allowed_snoc(StateView::NotStarted, self.events@, ev);
                    lemma_run_snoc(StateView::NotStarted, self.events@, ev);
                }
                self.events = Ghost(self.events@.push(Event::KillFailed { message: message@ }));
                Err(SupervisorError::KillFailed { message })
            },
        }
    }

    /// Records that the supervised process exited on its own, observed
    /// and reaped by the host's watcher: `Stopped` on exit code zero,
    /// `Failed` with `UnexpectedExit` otherwise. The exit is thereby
    /// observable through `status`, not silently lost.
    pub fn notice_exit(&mut self, exit_code: i32)
        requires
            old(self).wf(),
            old(self)@.state is Running,
        ensures
            final(self).wf(),
            final(self)@.command == old(self)@.command,
            event_allowed(old(self)@.state, Event::ChildExited { exit_code: exit_code as int }),
            final(self)@.state == step(
                old(self)@.state,
                Event::ChildExited { exit_code: exit_code as int },
            ),
            final(self).history() == old(self).history().push(
                Event::ChildExited { exit_code: exit_code as int },
            ),
    {
        proof {
            let ev = Event::ChildExited { exit_code: exit_code as int };
            lemma_trace_allowed_snoc(StateView::NotStarted, self.events@, ev);
            lemma_run_snoc(StateView::NotStarted, self.events@, ev);
        }
        if exit_code == 0 {
            self.state = ProcessState::Stopped { exit_code };
        } else {
            self.state = ProcessState::Failed {
                error: SupervisorError::UnexpectedExit { exit_code },
            };
        }
        self.events = Ghost(self.events@.push(Event::ChildExited { exit_code: exit_code as int }));
    }
}

/// The central safety law, at the level of a supervisor value: the
/// recorded history of a well-formed supervisor is an allowed trace
/// from `NotStarted` that yields its current state — so, by
/// `state::lemma_at_most_one_live_process`, at most one live OS process
/// was attributed to the supervisor at every point of its history.
pub proof fn lemma_history_sound(sup: &Supervisor)
    requires
        sup.wf(),
    ensures
        trace_allowed(StateView::NotStarted, sup.history()),
        run(StateView::NotStarted, sup.history()) == sup@.state,
{
}

/// At every point of a well-formed supervisor's history, the OS-side
/// count of processes spawned for it and not yet reaped is at most one:
/// the supervisor never leaks a process and never double-spawns.
pub proof fn lemma_at_most_one_live(sup: &Supervisor, k: int)
    requires
        sup.wf(),
        0 <= k <= sup.history().len(),
    ensures
        0 <= os_live(0, sup.history().take(k)) <= 1,
{
    lemma_history_sound(sup);
    lemma_at_most_one_live_process(sup.history(), k);
}

/// How a stop the host performed came out: either the child exited and
/// was reaped, or the escalated forceful kill itself failed.
#[derive(Debug)]
pub enum StopOutcome {
    Exited { exit_code: i32 },
    KillError { message: String },
}

} // verus!
