//! The job runner's own decisions: taking jobs in, reporting crashed tasks,
//! and shutting down on Ctrl+C with a grace period for jobs in flight.
use vstd::prelude::*;

use crate::tui::{AppEvent, AppEventView};

verus! {

/// How long jobs in flight may run on after Ctrl+C, in milliseconds.
pub const DRAIN_GRACE_MS: u64 = 30_000;

/// Where the runner stands.
pub struct RunnerState {
    /// Whether new jobs are taken in (until Ctrl+C).
    pub accepting: bool,
    /// Jobs spawned that have not ended.
    pub running: usize,
    /// When draining, the time by which running jobs are aborted.
    pub drain_deadline_ms: Option<u64>,
}

/// What the runner's loop observed.
pub enum RunnerEvent {
    JobArrived { job_id: String, customer_id: String, input: String },
    /// A spawned job ended; `panic` holds the panic's text when it panicked.
    TaskEnded { panic: Option<String> },
    Interrupted { now_ms: u64 },
    Tick { now_ms: u64 },
}

/// What the runner's loop is asked to do.
pub enum RunnerAction {
    Notify(AppEvent),
    /// Spawn the job that just arrived.
    Spawn,
    /// Abort every job still running.
    AbortAll,
    /// Leave the loop.
    Stop,
}

pub enum RunnerEventView {
    JobArrived { job_id: Seq<char>, customer_id: Seq<char>, input: Seq<char> },
    TaskEnded { panic: Option<Seq<char>> },
    Interrupted { now_ms: u64 },
    Tick { now_ms: u64 },
}

pub enum RunnerActionView {
    Notify(AppEventView),
    Spawn,
    AbortAll,
    Stop,
}

pub struct RunnerView {
    pub accepting: bool,
    pub running: usize,
    pub drain_deadline_ms: Option<u64>,
}

impl View for RunnerState {
    type V = RunnerView;

    open spec fn view(&self) -> RunnerView {
        RunnerView {
            accepting: self.accepting,
            running: self.running,
            drain_deadline_ms: self.drain_deadline_ms,
        }
    }
}

impl View for RunnerEvent {
    type V = RunnerEventView;

    open spec fn view(&self) -> RunnerEventView {
        match self {
            RunnerEvent::JobArrived { job_id, customer_id, input } => RunnerEventView::JobArrived {
                job_id: job_id@,
                customer_id: customer_id@,
                input: input@,
            },
            RunnerEvent::TaskEnded { panic } => RunnerEventView::TaskEnded {
                panic: match panic {
                    Some(p) => Some(p@),
                    None => None,
                },
            },
            RunnerEvent::Interrupted { now_ms } => RunnerEventView::Interrupted { now_ms: *now_ms },
            RunnerEvent::Tick { now_ms } => RunnerEventView::Tick { now_ms: *now_ms },
        }
    }
}

impl View for RunnerAction {
    type V = RunnerActionView;

    open spec fn view(&self) -> RunnerActionView {
        match self {
            RunnerAction::Notify(e) => RunnerActionView::Notify(e@),
            RunnerAction::Spawn => RunnerActionView::Spawn,
            RunnerAction::AbortAll => RunnerActionView::AbortAll,
            RunnerAction::Stop => RunnerActionView::Stop,
        }
    }
}

impl RunnerState {
    /// A runner takes jobs in until it is interrupted; a draining runner has
    /// a deadline.
    pub open spec fn wf(&self) -> bool {
        self@.accepting <==> self@.drain_deadline_ms is None
    }

    /// A runner that has just started.
    pub fn new() -> (r: RunnerState)
        ensures
            r.wf(),
            r@ == (RunnerView { accepting: true, running: 0, drain_deadline_ms: None }),
    {
        RunnerState { accepting: true, running: 0, drain_deadline_ms: None }
    }
}

pub open spec fn runner_actions_view(a: Seq<RunnerAction>) -> Seq<RunnerActionView> {
    a.map_values(|x: RunnerAction| x@)
}

/// The drain deadline for an interruption at `now`: the grace period later.
pub open spec fn drain_deadline(now: u64) -> u64 {
    if now + DRAIN_GRACE_MS > u64::MAX {
        u64::MAX
    } else {
        (now + DRAIN_GRACE_MS) as u64
    }
}

/// The report of a task that panicked.
pub open spec fn panic_report(msg: Seq<char>) -> AppEventView {
    AppEventView::JobFailed { job_id: Seq::empty(), error: "task panicked: "@ + msg }
}

/// The state after an event, and the actions it calls for.
pub open spec fn runner_transition(s: RunnerView, e: RunnerEventView) -> (
    RunnerView,
    Seq<RunnerActionView>,
) {
    match e {
        RunnerEventView::JobArrived { job_id, customer_id, input } => if s.accepting {
            (
                RunnerView {
                    running: if s.running < usize::MAX {
                        (s.running + 1) as usize
                    } else {
                        s.running
                    },
                    ..s
                },
                seq![
                    RunnerActionView::Notify(
                        AppEventView::JobReceived { job_id, customer_id, input },
                    ),
                    RunnerActionView::Spawn,
                ],
            )
        } else {
            (s, Seq::empty())
        },
        RunnerEventView::TaskEnded { panic } => {
            let running = if s.running > 0 {
                (s.running - 1) as usize
            } else {
                0
            };
            let t = RunnerView { running, ..s };
            if s.accepting {
                match panic {
                    Some(msg) => (t, seq![RunnerActionView::Notify(panic_report(msg))]),
                    None => (t, Seq::empty()),
                }
            } else if running == 0 {
                (t, seq![RunnerActionView::Stop])
            } else {
                (t, Seq::empty())
            }
        },
        RunnerEventView::Interrupted { now_ms } => if s.accepting {
            let t = RunnerView {
                accepting: false,
                drain_deadline_ms: Some(drain_deadline(now_ms)),
                ..s
            };
            if s.running == 0 {
                (t, seq![RunnerActionView::Stop])
            } else {
                (t, Seq::empty())
            }
        } else {
            (s, Seq::empty())
        },
        RunnerEventView::Tick { now_ms } => if s.accepting {
            (s, Seq::empty())
        } else if s.running == 0 {
            (s, seq![RunnerActionView::Stop])
        } else if s.drain_deadline_ms matches Some(d) && now_ms >= d {
            (s, seq![RunnerActionView::AbortAll, RunnerActionView::Stop])
        } else {
            (s, Seq::empty())
        },
    }
}

fn one(a: RunnerAction) -> (r: Vec<RunnerAction>)
    ensures
        runner_actions_view(r@) == seq![a@],
{
    let mut v = Vec::new();
    v.push(a);
    assert(runner_actions_view(v@) =~= seq![a@]);
    v
}

fn two(a: RunnerAction, b: RunnerAction) -> (r: Vec<RunnerAction>)
    ensures
        runner_actions_view(r@) == seq![a@, b@],
{
    let mut v = Vec::new();
    v.push(a);
    v.push(b);
    assert(runner_actions_view(v@) =~= seq![a@, b@]);
    v
}

fn none() -> (r: Vec<RunnerAction>)
    ensures
        runner_actions_view(r@) == Seq::<RunnerActionView>::empty(),
{
    let v = Vec::new();
    assert(runner_actions_view(v@) =~= Seq::<RunnerActionView>::empty());
    v
}

/// Takes in what the runner's loop observed and gives what it is to do.
pub fn runner_step(state: &mut RunnerState, event: RunnerEvent) -> (r: Vec<RunnerAction>)
    requires
        old(state).wf(),
    ensures
        final(state).wf(),
        (final(state)@, runner_actions_view(r@)) == runner_transition(old(state)@, event@),
{
    match event {
        RunnerEvent::JobArrived { job_id, customer_id, input } => {
            if state.accepting {
                if state.running < usize::MAX {
                    state.running = state.running + 1;
                }
                two(
                    RunnerAction::Notify(AppEvent::JobReceived { job_id, customer_id, input }),
                    RunnerAction::Spawn,
                )
            } else {
                none()
            }
        },
        RunnerEvent::TaskEnded { panic } => {
            if state.running > 0 {
                state.running = state.running - 1;
            }
            if state.accepting {
                match panic {
                    Some(msg) => {
                        let mut error = String::from_str("task panicked: ");
                        error.append(msg.as_str());
                        one(
                            RunnerAction::Notify(
                                AppEvent::JobFailed { job_id: String::new(), error },
                            ),
                        )
                    },
                    None => none(),
                }
            } else if state.running == 0 {
                one(RunnerAction::Stop)
            } else {
                none()
            }
        },
        RunnerEvent::Interrupted { now_ms } => {
            if state.accepting {
                state.accepting = false;
                state.drain_deadline_ms = Some(now_ms.saturating_add(DRAIN_GRACE_MS));
                if state.running == 0 {
                    one(RunnerAction::Stop)
                } else {
                    none()
                }
            } else {
                none()
            }
        },
        RunnerEvent::Tick { now_ms } => {
            if state.accepting {
                none()
            } else if state.running == 0 {
                one(RunnerAction::Stop)
            } else {
                match state.drain_deadline_ms {
                    Some(d) => if now_ms >= d {
                        two(RunnerAction::AbortAll, RunnerAction::Stop)
                    } else {
                        none()
                    },
                    None => none(),
                }
            }
        },
    }
}

// ---------------------------------------------------------------------------
// Laws of the runner.
// ---------------------------------------------------------------------------
/// Once interrupted, the runner never takes a job in again: no step of a
/// runner that is not accepting spawns, and none makes it accept again.
pub proof fn law_no_spawn_after_interrupt(s: RunnerView, e: RunnerEventView, k: int)
    requires
        !s.accepting,
        0 <= k < runner_transition(s, e).1.len(),
    ensures
        !(runner_transition(s, e).1[k] is Spawn),
        !runner_transition(s, e).0.accepting,
{
}

/// An interruption of an accepting runner stops intake and sets the drain
/// deadline to the grace period after it.
pub proof fn law_interrupt_sets_deadline(s: RunnerView, now_ms: u64)
    requires
        s.accepting,
    ensures
        !runner_transition(s, RunnerEventView::Interrupted { now_ms }).0.accepting,
        runner_transition(s, RunnerEventView::Interrupted { now_ms }).0.drain_deadline_ms
            == Some(
            if now_ms + 30_000 <= u64::MAX {
                (now_ms + 30_000) as u64
            } else {
                u64::MAX
            },
        ),
{
}

/// A draining runner stops no later than its deadline: a tick at or after
/// the deadline aborts what still runs and stops, and a tick with nothing
/// running stops.
pub proof fn law_stop_by_deadline(s: RunnerView, now_ms: u64)
    requires
        !s.accepting,
        s.running == 0 || (s.drain_deadline_ms matches Some(d) && now_ms >= d),
    ensures
        ({
            let acts = runner_transition(s, RunnerEventView::Tick { now_ms }).1;
            &&& acts.len() > 0
            &&& acts.last() is Stop
            &&& s.running > 0 ==> acts[0] is AbortAll
        }),
{
}

/// Every task panic seen while accepting is reported as a failed job with
/// the panic's text.
pub proof fn law_panic_reported(s: RunnerView, msg: Seq<char>)
    requires
        s.accepting,
    ensures
        runner_transition(s, RunnerEventView::TaskEnded { panic: Some(msg) }).1 == seq![
            RunnerActionView::Notify(
                AppEventView::JobFailed { job_id: Seq::empty(), error: "task panicked: "@ + msg },
            ),
        ],
{
}

/// `running` counts the spawned jobs that have not ended: an arrival taken
/// in adds one, every ended task takes one off (whether it panicked or not,
/// accepting or draining), and nothing else changes it.
pub proof fn law_running_counts_tasks(s: RunnerView, e: RunnerEventView)
    ensures
        ({
            let t = runner_transition(s, e).0;
            match e {
                RunnerEventView::JobArrived { .. } => if s.accepting && s.running < usize::MAX {
                    t.running == s.running + 1
                } else {
                    t.running == s.running
                },
                RunnerEventView::TaskEnded { .. } => if s.running > 0 {
                    t.running == s.running - 1
                } else {
                    t.running == 0
                },
                _ => t.running == s.running,
            }
        }),
{
}

/// Ctrl+C with no job in flight stops at once; with jobs in flight it stops
/// intake and waits.
pub proof fn law_interrupt_when_idle(s: RunnerView, now_ms: u64)
    requires
        s.accepting,
    ensures
        s.running == 0 ==> runner_transition(s, RunnerEventView::Interrupted { now_ms }).1
            == seq![RunnerActionView::Stop],
        s.running > 0 ==> runner_transition(s, RunnerEventView::Interrupted { now_ms }).1.len()
            == 0,
{
}

/// While draining, the last job to end stops the runner; a job that ends
/// while others still run does not.
pub proof fn law_drain_ends_with_last_job(s: RunnerView, panic: Option<Seq<char>>)
    requires
        !s.accepting,
        s.running > 0,
    ensures
        s.running == 1 ==> runner_transition(s, RunnerEventView::TaskEnded { panic }).1 == seq![
            RunnerActionView::Stop,
        ],
        s.running > 1 ==> runner_transition(s, RunnerEventView::TaskEnded { panic }).1.len() == 0,
{
}

/// A job that arrives while accepting is announced to the dashboard with its
/// id, customer and input, then spawned.
pub proof fn law_arrival_announced(
    s: RunnerView,
    job_id: Seq<char>,
    customer_id: Seq<char>,
    input: Seq<char>,
)
    requires
        s.accepting,
    ensures
        runner_transition(s, RunnerEventView::JobArrived { job_id, customer_id, input }).1 == seq![
            RunnerActionView::Notify(AppEventView::JobReceived { job_id, customer_id, input }),
            RunnerActionView::Spawn,
        ],
{
}

} // verus!
