use elisym_cli::runner::{runner_step, RunnerAction, RunnerEvent, RunnerState, DRAIN_GRACE_MS};
use elisym_cli::runtime::{skill_input, IncomingJob};
use elisym_cli::tui::AppEvent;

fn arrive(id: &str) -> RunnerEvent {
    RunnerEvent::JobArrived { job_id: id.to_string(), customer_id: "c".to_string(), input: "x".to_string() }
}

#[test]
fn jobs_are_announced_then_spawned() {
    let mut s = RunnerState::new();
    let acts = runner_step(&mut s, arrive("j1"));
    assert_eq!(acts.len(), 2);
    match &acts[0] {
        RunnerAction::Notify(AppEvent::JobReceived { job_id, customer_id, input }) => {
            assert_eq!((job_id.as_str(), customer_id.as_str(), input.as_str()), ("j1", "c", "x"));
        }
        _ => panic!("expected the job to be announced"),
    }
    assert!(matches!(acts[1], RunnerAction::Spawn));
    assert_eq!(s.running, 1);
    assert!(runner_step(&mut s, RunnerEvent::Tick { now_ms: 5 }).is_empty());
}

#[test]
fn panics_are_reported_while_running() {
    let mut s = RunnerState::new();
    runner_step(&mut s, arrive("j1"));
    let acts = runner_step(&mut s, RunnerEvent::TaskEnded { panic: Some("boom".to_string()) });
    match &acts[..] {
        [RunnerAction::Notify(AppEvent::JobFailed { job_id, error })] => {
            assert_eq!(job_id, "");
            assert_eq!(error, "task panicked: boom");
        }
        _ => panic!("expected a failure report"),
    }
    assert_eq!(s.running, 0);
    assert!(runner_step(&mut s, RunnerEvent::TaskEnded { panic: None }).is_empty());
}

#[test]
fn interrupt_drains_then_aborts_at_the_deadline() {
    let mut s = RunnerState::new();
    runner_step(&mut s, arrive("j1"));
    runner_step(&mut s, arrive("j2"));
    assert!(runner_step(&mut s, RunnerEvent::Interrupted { now_ms: 1_000 }).is_empty());
    assert!(!s.accepting);
    assert_eq!(s.drain_deadline_ms, Some(1_000 + DRAIN_GRACE_MS));
    assert!(runner_step(&mut s, arrive("j3")).is_empty());
    assert_eq!(s.running, 2);
    assert!(runner_step(&mut s, RunnerEvent::TaskEnded { panic: Some("late".to_string()) }).is_empty());
    assert!(runner_step(&mut s, RunnerEvent::Tick { now_ms: 30_999 }).is_empty());
    let acts = runner_step(&mut s, RunnerEvent::Tick { now_ms: 31_000 });
    assert!(matches!(acts[..], [RunnerAction::AbortAll, RunnerAction::Stop]));
}

#[test]
fn interrupt_with_nothing_running_stops_at_once() {
    let mut s = RunnerState::new();
    assert!(matches!(runner_step(&mut s, RunnerEvent::Interrupted { now_ms: u64::MAX })[..], [RunnerAction::Stop]));
    assert_eq!(s.drain_deadline_ms, Some(u64::MAX));
    let mut t = RunnerState::new();
    runner_step(&mut t, arrive("j"));
    runner_step(&mut t, RunnerEvent::Interrupted { now_ms: 0 });
    assert!(matches!(runner_step(&mut t, RunnerEvent::TaskEnded { panic: None })[..], [RunnerAction::Stop]));
}

#[test]
fn skill_input_carries_the_job() {
    let job = IncomingJob {
        job_id: "id".to_string(),
        customer_id: "cust".to_string(),
        input: "text".to_string(),
        input_type: "text/plain".to_string(),
        tags: vec!["summarize".to_string(), "en".to_string()],
    };
    let i = skill_input(&job);
    assert_eq!(i.data, "text");
    assert_eq!(i.input_type, "text/plain");
    assert_eq!(i.tags, vec!["summarize", "en"]);
    assert_eq!(i.job_id, "id");
}
