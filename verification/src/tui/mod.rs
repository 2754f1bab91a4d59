//! Dashboard state: the jobs an agent has seen, their event logs and the
//! global log, updated by the events that the runtime reports.
pub mod ui;

use std::collections::VecDeque;
use std::time::Instant;

use vstd::prelude::*;

use crate::util::{
    byte_prefix, byte_prefix_of, decimal, format_sol_compact, prefix_sliceable, push_decimal,
    sol_compact,
};

verus! {

/// Maximum global log lines retained.
pub const MAX_GLOBAL_LOGS: usize = 500;

/// Bytes of an identifier shown in the global log.
pub const SHORT_ID_BYTES: usize = 12;

/// What the runtime reports to the dashboard.
#[derive(Debug)]
pub enum AppEvent {
    JobReceived { job_id: String, customer_id: String, input: String },
    PaymentRequested { job_id: String, price: u64, fee: u64 },
    PaymentReceived { job_id: String, net_amount: u64 },
    PaymentTimeout { job_id: String },
    SkillStarted { job_id: String, skill_name: String },
    LlmRound { job_id: String, round: usize, max_rounds: usize },
    ToolStarted { job_id: String, tool_name: String },
    ToolCompleted { job_id: String, tool_name: String, output_len: usize },
    ToolFailed { job_id: String, tool_name: String, error: String },
    JobCompleted { job_id: String, result_len: usize },
    JobFailed { job_id: String, error: String },
    WalletBalance(u64),
    Ping { from: String },
}

#[derive(Debug, Clone)]
pub enum JobStatus {
    PaymentPending,
    Processing,
    Completed,
    Failed(String),
}

#[derive(Debug, Clone)]
pub struct LogLine {
    pub time: String,
    pub icon: &'static str,
    pub message: String,
}

/// One job on the dashboard; times are milliseconds since the dashboard
/// started, on the monotonic clock.
pub struct JobEntry {
    pub job_id: String,
    pub customer_id: String,
    pub input: String,
    pub status: JobStatus,
    pub skill_name: Option<String>,
    pub price: Option<u64>,
    pub fee: Option<u64>,
    pub net_amount: Option<u64>,
    pub started_at: i64,
    pub completed_at: Option<i64>,
    pub logs: Vec<LogLine>,
}

#[derive(Clone, Copy, PartialEq, Eq, Structural)]
pub enum Screen {
    Main,
    JobDetail(usize),
}

#[derive(Clone, Copy, PartialEq, Eq, Structural)]
pub enum Focus {
    Table,
    Log,
}

/// A sound the dashboard asks to be played.
#[derive(Debug, Clone, Copy, PartialEq, Eq, Structural)]
pub enum SoundCue {
    /// A payment arrived.
    PaymentReceived,
}

/// The dashboard. The selected row of the job table is `selected`.
pub struct App {
    pub screen: Screen,
    pub focus: Focus,
    pub jobs: Vec<JobEntry>,
    pub global_logs: VecDeque<LogLine>,
    pub selected: Option<usize>,
    pub log_scroll: u16,
    pub detail_scroll: u16,
    // Header info
    pub agent_name: String,
    pub skill_name: String,
    pub price: u64,
    pub free_mode: bool,
    pub wallet_balance: u64,
    pub network: String,
    pub sound_enabled: bool,
    /// When the dashboard started: job times are milliseconds since then,
    /// read from the monotonic clock.
    pub origin: Instant,
}

/// The monotonic clock's reading, `std::time::Instant`.
#[verifier::external_type_specification]
#[verifier::external_body]
pub struct ExInstant(Instant);

/// Calls `Instant::now()`. Nothing is claimed of it: it is the clock.
#[verifier::external_body]
fn monotonic_now() -> (r: Instant) {
    Instant::now()
}

/// Calls `origin.elapsed()` and gives it in whole milliseconds. Nothing is
/// claimed of it: it is the clock.
#[verifier::external_body]
fn monotonic_ms_since(origin: &Instant) -> (r: i64) {
    origin.elapsed().as_millis() as i64
}

// ---------------------------------------------------------------------------
// Views.
// ---------------------------------------------------------------------------
pub enum AppEventView {
    JobReceived { job_id: Seq<char>, customer_id: Seq<char>, input: Seq<char> },
    PaymentRequested { job_id: Seq<char>, price: u64, fee: u64 },
    PaymentReceived { job_id: Seq<char>, net_amount: u64 },
    PaymentTimeout { job_id: Seq<char> },
    SkillStarted { job_id: Seq<char>, skill_name: Seq<char> },
    LlmRound { job_id: Seq<char>, round: usize, max_rounds: usize },
    ToolStarted { job_id: Seq<char>, tool_name: Seq<char> },
    ToolCompleted { job_id: Seq<char>, tool_name: Seq<char>, output_len: usize },
    ToolFailed { job_id: Seq<char>, tool_name: Seq<char>, error: Seq<char> },
    JobCompleted { job_id: Seq<char>, result_len: usize },
    JobFailed { job_id: Seq<char>, error: Seq<char> },
    WalletBalance(u64),
    Ping { from: Seq<char> },
}

impl View for AppEvent {
    type V = AppEventView;

    open spec fn view(&self) -> AppEventView {
        match self {
            AppEvent::JobReceived { job_id, customer_id, input } => AppEventView::JobReceived {
                job_id: job_id@,
                customer_id: customer_id@,
                input: input@,
            },
            AppEvent::PaymentRequested { job_id, price, fee } => AppEventView::PaymentRequested {
                job_id: job_id@,
                price: *price,
                fee: *fee,
            },
            AppEvent::PaymentReceived { job_id, net_amount } => AppEventView::PaymentReceived {
                job_id: job_id@,
                net_amount: *net_amount,
            },
            AppEvent::PaymentTimeout { job_id } => AppEventView::PaymentTimeout { job_id: job_id@ },
            AppEvent::SkillStarted { job_id, skill_name } => AppEventView::SkillStarted {
                job_id: job_id@,
                skill_name: skill_name@,
            },
            AppEvent::LlmRound { job_id, round, max_rounds } => AppEventView::LlmRound {
                job_id: job_id@,
                round: *round,
                max_rounds: *max_rounds,
            },
            AppEvent::ToolStarted { job_id, tool_name } => AppEventView::ToolStarted {
                job_id: job_id@,
                tool_name: tool_name@,
            },
            AppEvent::ToolCompleted { job_id, tool_name, output_len } => AppEventView::ToolCompleted {
                job_id: job_id@,
                tool_name: tool_name@,
                output_len: *output_len,
            },
            AppEvent::ToolFailed { job_id, tool_name, error } => AppEventView::ToolFailed {
                job_id: job_id@,
                tool_name: tool_name@,
                error: error@,
            },
            AppEvent::JobCompleted { job_id, result_len } => AppEventView::JobCompleted {
                job_id: job_id@,
                result_len: *result_len,
            },
            AppEvent::JobFailed { job_id, error } => AppEventView::JobFailed {
                job_id: job_id@,
                error: error@,
            },
            AppEvent::WalletBalance(b) => AppEventView::WalletBalance(*b),
            AppEvent::Ping { from } => AppEventView::Ping { from: from@ },
        }
    }
}

pub struct LogView {
    pub time: Seq<char>,
    pub icon: Seq<char>,
    pub message: Seq<char>,
}

pub enum StatusView {
    PaymentPending,
    Processing,
    Completed,
    Failed(Seq<char>),
}

pub struct JobView {
    pub job_id: Seq<char>,
    pub customer_id: Seq<char>,
    pub input: Seq<char>,
    pub status: StatusView,
    pub skill_name: Option<Seq<char>>,
    pub price: Option<u64>,
    pub fee: Option<u64>,
    pub net_amount: Option<u64>,
    pub started_at: i64,
    pub completed_at: Option<i64>,
    pub logs: Seq<LogView>,
}

pub struct AppView {
    pub screen: Screen,
    pub focus: Focus,
    pub jobs: Seq<JobView>,
    pub global_logs: Seq<LogView>,
    pub selected: Option<usize>,
    pub log_scroll: u16,
    pub detail_scroll: u16,
    pub agent_name: Seq<char>,
    pub skill_name: Seq<char>,
    pub price: u64,
    pub free_mode: bool,
    pub wallet_balance: u64,
    pub network: Seq<char>,
    pub sound_enabled: bool,
}

impl View for LogLine {
    type V = LogView;

    open spec fn view(&self) -> LogView {
        LogView { time: self.time@, icon: self.icon@, message: self.message@ }
    }
}

impl View for JobStatus {
    type V = StatusView;

    open spec fn view(&self) -> StatusView {
        match self {
            JobStatus::PaymentPending => StatusView::PaymentPending,
            JobStatus::Processing => StatusView::Processing,
            JobStatus::Completed => StatusView::Completed,
            JobStatus::Failed(e) => StatusView::Failed(e@),
        }
    }
}

pub open spec fn opt_view(o: Option<String>) -> Option<Seq<char>> {
    match o {
        Some(s) => Some(s@),
        None => None,
    }
}

impl View for JobEntry {
    type V = JobView;

    open spec fn view(&self) -> JobView {
        JobView {
            job_id: self.job_id@,
            customer_id: self.customer_id@,
            input: self.input@,
            status: self.status@,
            skill_name: opt_view(self.skill_name),
            price: self.price,
            fee: self.fee,
            net_amount: self.net_amount,
            started_at: self.started_at,
            completed_at: self.completed_at,
            logs: self.logs@.map_values(|l: LogLine| l@),
        }
    }
}

impl View for App {
    type V = AppView;

    open spec fn view(&self) -> AppView {
        AppView {
            screen: self.screen,
            focus: self.focus,
            jobs: self.jobs@.map_values(|j: JobEntry| j@),
            global_logs: self.global_logs@.map_values(|l: LogLine| l@),
            selected: self.selected,
            log_scroll: self.log_scroll,
            detail_scroll: self.detail_scroll,
            agent_name: self.agent_name@,
            skill_name: self.skill_name@,
            price: self.price,
            free_mode: self.free_mode,
            wallet_balance: self.wallet_balance,
            network: self.network@,
            sound_enabled: self.sound_enabled,
        }
    }
}

// ---------------------------------------------------------------------------
// What an event does, stated over the views.
// ---------------------------------------------------------------------------
/// Whether the first `SHORT_ID_BYTES` bytes of `s` (or all of it) end on a
/// character boundary; slicing there panics otherwise.
pub open spec fn short_sliceable(s: Seq<char>) -> bool {
    prefix_sliceable(s, SHORT_ID_BYTES as int)
}

/// The first `SHORT_ID_BYTES` bytes of `s` (all of it if shorter).
pub open spec fn short_id(s: Seq<char>) -> Seq<char> {
    byte_prefix_of(s, SHORT_ID_BYTES as int)
}

/// The identifiers that an event shows in shortened form can be shortened.
pub open spec fn event_sliceable(e: AppEvent) -> bool {
    match e {
        AppEvent::JobReceived { job_id, customer_id, .. } => short_sliceable(job_id@)
            && short_sliceable(customer_id@),
        AppEvent::PaymentRequested { job_id, .. } => short_sliceable(job_id@),
        AppEvent::PaymentReceived { job_id, .. } => short_sliceable(job_id@),
        AppEvent::PaymentTimeout { job_id } => short_sliceable(job_id@),
        AppEvent::SkillStarted { job_id, .. } => short_sliceable(job_id@),
        AppEvent::ToolStarted { job_id, .. } => short_sliceable(job_id@),
        AppEvent::JobCompleted { job_id, .. } => short_sliceable(job_id@),
        AppEvent::JobFailed { job_id, .. } => short_sliceable(job_id@),
        AppEvent::Ping { from } => short_sliceable(from@),
        _ => true,
    }
}

/// The global log line an event adds, as (icon, message).
#[verifier::opaque]
pub open spec fn global_line_of(e: AppEvent) -> Option<(Seq<char>, Seq<char>)> {
    match e {
        AppEvent::JobReceived { job_id, customer_id, .. } => Some(
            (
                "▶"@,
                "New job "@ + short_id(job_id@) + "... from "@ + short_id(customer_id@)
                    + "..."@,
            ),
        ),
        AppEvent::PaymentRequested { job_id, price, .. } => Some(
            (
                "$"@,
                "Requesting payment: "@ + sol_compact(price as nat) + " SOL ["@ + short_id(
                    job_id@,
                ) + "...]"@,
            ),
        ),
        AppEvent::PaymentReceived { job_id, net_amount } => Some(
            (
                "$"@,
                "Payment received ("@ + sol_compact(net_amount as nat) + " SOL net) ["@
                    + short_id(job_id@) + "...]"@,
            ),
        ),
        AppEvent::PaymentTimeout { job_id } => Some(
            ("✗"@, "Payment timeout ["@ + short_id(job_id@) + "...]"@),
        ),
        AppEvent::SkillStarted { job_id, skill_name } => Some(
            ("⚙"@, "Running skill "@ + skill_name@ + " ["@ + short_id(job_id@) + "...]"@),
        ),
        AppEvent::ToolStarted { job_id, tool_name } => Some(
            ("→"@, "Running tool "@ + tool_name@ + " ["@ + short_id(job_id@) + "...]"@),
        ),
        AppEvent::JobCompleted { job_id, result_len } => Some(
            (
                "✓"@,
                "Job "@ + short_id(job_id@) + "... done ("@ + decimal(result_len as nat)
                    + " chars)"@,
            ),
        ),
        AppEvent::JobFailed { job_id, error } => Some(
            ("✗"@, "Job "@ + short_id(job_id@) + "... failed: "@ + error@),
        ),
        AppEvent::Ping { from } => Some(
            ("↔"@, "Ping from "@ + short_id(from@) + "... — pong sent"@),
        ),
        _ => None,
    }
}

/// The log line an event adds to its job, as (icon, message). A new job's
/// first line is given by `new_job_of`.
#[verifier::opaque]
pub open spec fn job_line_of(e: AppEvent) -> Option<(Seq<char>, Seq<char>)> {
    match e {
        AppEvent::PaymentRequested { price, .. } => Some(
            ("$"@, "Requesting payment: "@ + sol_compact(price as nat) + " SOL"@),
        ),
        AppEvent::PaymentReceived { net_amount, .. } => Some(
            ("✓"@, "Payment received ("@ + sol_compact(net_amount as nat) + " SOL net)"@),
        ),
        AppEvent::PaymentTimeout { .. } => Some(("✗"@, "Payment timeout"@)),
        AppEvent::SkillStarted { skill_name, .. } => Some(
            ("⚙"@, "Running skill "@ + skill_name@),
        ),
        AppEvent::LlmRound { round, max_rounds, .. } => Some(
            ("⚙"@, "LLM round "@ + decimal(round as nat) + "/"@ + decimal(max_rounds as nat)),
        ),
        AppEvent::ToolStarted { tool_name, .. } => Some(("→"@, "Running tool "@ + tool_name@)),
        AppEvent::ToolCompleted { tool_name, output_len, .. } => Some(
            ("←"@, "Tool "@ + tool_name@ + " done ("@ + decimal(output_len as nat) + " chars)"@),
        ),
        AppEvent::ToolFailed { tool_name, error, .. } => Some(
            ("✗"@, "Tool "@ + tool_name@ + " failed: "@ + error@),
        ),
        AppEvent::JobCompleted { result_len, .. } => Some(
            ("✓"@, "Result delivered ("@ + decimal(result_len as nat) + " chars)"@),
        ),
        AppEvent::JobFailed { error, .. } => Some(("✗"@, "Failed: "@ + error@)),
        _ => None,
    }
}

/// The job an event is about, for the events that change an existing job.
pub open spec fn target_job_of(e: AppEvent) -> Option<Seq<char>> {
    match e {
        AppEvent::PaymentRequested { job_id, .. } => Some(job_id@),
        AppEvent::PaymentReceived { job_id, .. } => Some(job_id@),
        AppEvent::PaymentTimeout { job_id } => Some(job_id@),
        AppEvent::SkillStarted { job_id, .. } => Some(job_id@),
        AppEvent::LlmRound { job_id, .. } => Some(job_id@),
        AppEvent::ToolStarted { job_id, .. } => Some(job_id@),
        AppEvent::ToolCompleted { job_id, .. } => Some(job_id@),
        AppEvent::ToolFailed { job_id, .. } => Some(job_id@),
        AppEvent::JobCompleted { job_id, .. } => Some(job_id@),
        AppEvent::JobFailed { job_id, .. } => Some(job_id@),
        _ => None,
    }
}

pub open spec fn log_view(time: Seq<char>, line: (Seq<char>, Seq<char>)) -> LogView {
    LogView { time, icon: line.0, message: line.1 }
}

/// The global log after appending a line: the oldest line goes once there
/// are more than `MAX_GLOBAL_LOGS`.
pub open spec fn push_global(logs: Seq<LogView>, line: LogView) -> Seq<LogView> {
    let l = logs.push(line);
    if l.len() > MAX_GLOBAL_LOGS {
        l.drop_first()
    } else {
        l
    }
}

/// The index of the first job with the given id.
pub open spec fn first_job_index(jobs: Seq<JobView>, id: Seq<char>) -> Option<int> {
    if exists|i: int| 0 <= i < jobs.len() && jobs[i].job_id == id {
        Some(
            choose|i: int|
                0 <= i < jobs.len() && jobs[i].job_id == id && forall|j: int|
                    0 <= j < i ==> jobs[j].job_id != id,
        )
    } else {
        None
    }
}

pub open spec fn is_first_job_index(jobs: Seq<JobView>, id: Seq<char>, i: int) -> bool {
    0 <= i < jobs.len() && jobs[i].job_id == id && forall|j: int|
        0 <= j < i ==> jobs[j].job_id != id
}

proof fn lemma_first_exists(jobs: Seq<JobView>, id: Seq<char>, k: int)
    requires
        0 <= k < jobs.len(),
        jobs[k].job_id == id,
    ensures
        exists|m: int| is_first_job_index(jobs, id, m),
    decreases k,
{
    if exists|j: int| 0 <= j < k && jobs[j].job_id == id {
        let j = choose|j: int| 0 <= j < k && jobs[j].job_id == id;
        lemma_first_exists(jobs, id, j);
    } else {
        assert(is_first_job_index(jobs, id, k));
    }
}

/// `first_job_index` is the least index holding the id, if any.
pub proof fn lemma_first_job_index(jobs: Seq<JobView>, id: Seq<char>)
    ensures
        match first_job_index(jobs, id) {
            Some(i) => is_first_job_index(jobs, id, i),
            None => forall|i: int| 0 <= i < jobs.len() ==> jobs[i].job_id != id,
        },
{
    if exists|i: int| 0 <= i < jobs.len() && jobs[i].job_id == id {
        let k = choose|i: int| 0 <= i < jobs.len() && jobs[i].job_id == id;
        lemma_first_exists(jobs, id, k);
    }
}

/// The fields an event sets on its job (besides the log line).
pub open spec fn job_fields_after(j: JobView, e: AppEvent, now: i64) -> JobView {
    match e {
        AppEvent::PaymentRequested { price, fee, .. } => JobView {
            price: Some(price),
            fee: Some(fee),
            ..j
        },
        AppEvent::PaymentReceived { net_amount, .. } => JobView {
            net_amount: Some(net_amount),
            status: StatusView::Processing,
            ..j
        },
        AppEvent::PaymentTimeout { .. } => JobView {
            status: StatusView::Failed("payment timeout"@),
            completed_at: Some(now),
            ..j
        },
        AppEvent::SkillStarted { skill_name, .. } => JobView {
            skill_name: Some(skill_name@),
            status: StatusView::Processing,
            ..j
        },
        AppEvent::JobCompleted { .. } => JobView {
            status: StatusView::Completed,
            completed_at: Some(now),
            ..j
        },
        AppEvent::JobFailed { error, .. } => JobView {
            status: StatusView::Failed(error@),
            completed_at: Some(now),
            ..j
        },
        _ => j,
    }
}

/// The job an event about it leaves: its fields set and its line logged.
#[verifier::opaque]
pub open spec fn job_after(j: JobView, e: AppEvent, now: i64, time: Seq<char>) -> JobView {
    let f = job_fields_after(j, e, now);
    match job_line_of(e) {
        Some(line) => JobView { logs: f.logs.push(log_view(time, line)), ..f },
        None => f,
    }
}

/// The entry a received job starts as.
#[verifier::opaque]
pub open spec fn new_job_of(e: AppEvent, now: i64, time: Seq<char>) -> JobView {
    match e {
        AppEvent::JobReceived { job_id, customer_id, input } => JobView {
            job_id: job_id@,
            customer_id: customer_id@,
            input: input@,
            status: StatusView::PaymentPending,
            skill_name: None,
            price: None,
            fee: None,
            net_amount: None,
            started_at: now,
            completed_at: None,
            logs: seq![log_view(time, ("▶"@, "Job received"@))],
        },
        _ => arbitrary(),
    }
}

/// The global log after an event.
pub open spec fn global_logs_after(logs: Seq<LogView>, e: AppEvent, time: Seq<char>) -> Seq<
    LogView,
> {
    match global_line_of(e) {
        Some(line) => push_global(logs, log_view(time, line)),
        None => logs,
    }
}

/// The jobs, selection and wallet balance after an event.
pub open spec fn jobs_part_after(a: AppView, e: AppEvent, now: i64, time: Seq<char>) -> AppView {
    match e {
        AppEvent::JobReceived { .. } => {
            let jobs = a.jobs.push(new_job_of(e, now, time));
            AppView {
                jobs,
                selected: if a.selected is None {
                    Some((jobs.len() - 1) as usize)
                } else {
                    a.selected
                },
                ..a
            }
        },
        AppEvent::WalletBalance(b) => AppView { wallet_balance: b, ..a },
        _ => {
            let jobs = match target_job_of(e) {
                Some(id) => match first_job_index(a.jobs, id) {
                    Some(i) => a.jobs.update(i, job_after(a.jobs[i], e, now, time)),
                    None => a.jobs,
                },
                None => a.jobs,
            };
            AppView { jobs, ..a }
        },
    }
}

/// The dashboard after an event at time `now` (milliseconds), whose log
/// lines are stamped `time`.
pub open spec fn app_after(a: AppView, e: AppEvent, now: i64, time: Seq<char>) -> AppView {
    jobs_part_after(
        AppView { global_logs: global_logs_after(a.global_logs, e, time), ..a },
        e,
        now,
        time,
    )
}

/// The sound an event asks for.
pub open spec fn sound_of(a: AppView, e: AppEvent) -> Option<SoundCue> {
    match e {
        AppEvent::PaymentReceived { .. } => if a.sound_enabled {
            Some(SoundCue::PaymentReceived)
        } else {
            None
        },
        _ => None,
    }
}

// ---------------------------------------------------------------------------
// Executable updates.
// ---------------------------------------------------------------------------
/// The first `SHORT_ID_BYTES` bytes of `s` (all of it if shorter).
pub fn short_prefix(s: &str) -> (r: &str)
    requires
        short_sliceable(s@),
    ensures
        r@ == short_id(s@),
{
    byte_prefix(s, SHORT_ID_BYTES)
}

fn text(s: &str) -> (r: String)
    ensures
        r@ == s@,
{
    String::from_str(s)
}

/// The global log line for an event, as (icon, message).
fn global_line(e: &AppEvent) -> (r: Option<(&'static str, String)>)
    requires
        event_sliceable(*e),
    ensures
        match global_line_of(*e) {
            None => r is None,
            Some(line) => r matches Some((i, m)) && i@ == line.0 && m@ == line.1,
        },
{
    reveal(global_line_of);
    match e {
        AppEvent::JobReceived { job_id, customer_id, .. } => {
            let mut m = text("New job ");
            m.append(short_prefix(job_id.as_str()));
            m.append("... from ");
            m.append(short_prefix(customer_id.as_str()));
            m.append("...");
            Some(("▶", m))
        },
        AppEvent::PaymentRequested { job_id, price, .. } => {
            let mut m = text("Requesting payment: ");
            m.append(format_sol_compact(*price).as_str());
            m.append(" SOL [");
            m.append(short_prefix(job_id.as_str()));
            m.append("...]");
            Some(("$", m))
        },
        AppEvent::PaymentReceived { job_id, net_amount } => {
            let mut m = text("Payment received (");
            m.append(format_sol_compact(*net_amount).as_str());
            m.append(" SOL net) [");
            m.append(short_prefix(job_id.as_str()));
            m.append("...]");
            Some(("$", m))
        },
        AppEvent::PaymentTimeout { job_id } => {
            let mut m = text("Payment timeout [");
            m.append(short_prefix(job_id.as_str()));
            m.append("...]");
            Some(("✗", m))
        },
        AppEvent::SkillStarted { job_id, skill_name } => {
            let mut m = text("Running skill ");
            m.append(skill_name.as_str());
            m.append(" [");
            m.append(short_prefix(job_id.as_str()));
            m.append("...]");
            Some(("⚙", m))
        },
        AppEvent::ToolStarted { job_id, tool_name } => {
            let mut m = text("Running tool ");
            m.append(tool_name.as_str());
            m.append(" [");
            m.append(short_prefix(job_id.as_str()));
            m.append("...]");
            Some(("→", m))
        },
        AppEvent::JobCompleted { job_id, result_len } => {
            let mut m = text("Job ");
            m.append(short_prefix(job_id.as_str()));
            m.append("... done (");
            push_decimal(&mut m, *result_len as u64);
            m.append(" chars)");
            Some(("✓", m))
        },
        AppEvent::JobFailed { job_id, error } => {
            let mut m = text("Job ");
            m.append(short_prefix(job_id.as_str()));
            m.append("... failed: ");
            m.append(error.as_str());
            Some(("✗", m))
        },
        AppEvent::Ping { from } => {
            let mut m = text("Ping from ");
            m.append(short_prefix(from.as_str()));
            m.append("... — pong sent");
            Some(("↔", m))
        },
        _ => None,
    }
}

/// The log line for the job an event is about, as (icon, message).
fn job_line(e: &AppEvent) -> (r: Option<(&'static str, String)>)
    ensures
        match job_line_of(*e) {
            None => r is None,
            Some(line) => r matches Some((i, m)) && i@ == line.0 && m@ == line.1,
        },
{
    reveal(job_line_of);
    match e {
        AppEvent::PaymentRequested { price, .. } => {
            let mut m = text("Requesting payment: ");
            m.append(format_sol_compact(*price).as_str());
            m.append(" SOL");
            Some(("$", m))
        },
        AppEvent::PaymentReceived { net_amount, .. } => {
            let mut m = text("Payment received (");
            m.append(format_sol_compact(*net_amount).as_str());
            m.append(" SOL net)");
            Some(("✓", m))
        },
        AppEvent::PaymentTimeout { .. } => Some(("✗", text("Payment timeout"))),
        AppEvent::SkillStarted { skill_name, .. } => {
            let mut m = text("Running skill ");
            m.append(skill_name.as_str());
            Some(("⚙", m))
        },
        AppEvent::LlmRound { round, max_rounds, .. } => {
            let mut m = text("LLM round ");
            push_decimal(&mut m, *round as u64);
            m.append("/");
            push_decimal(&mut m, *max_rounds as u64);
            Some(("⚙", m))
        },
        AppEvent::ToolStarted { tool_name, .. } => {
            let mut m = text("Running tool ");
            m.append(tool_name.as_str());
            Some(("→", m))
        },
        AppEvent::ToolCompleted { tool_name, output_len, .. } => {
            let mut m = text("Tool ");
            m.append(tool_name.as_str());
            m.append(" done (");
            push_decimal(&mut m, *output_len as u64);
            m.append(" chars)");
            Some(("←", m))
        },
        AppEvent::ToolFailed { tool_name, error, .. } => {
            let mut m = text("Tool ");
            m.append(tool_name.as_str());
            m.append(" failed: ");
            m.append(error.as_str());
            Some(("✗", m))
        },
        AppEvent::JobCompleted { result_len, .. } => {
            let mut m = text("Result delivered (");
            push_decimal(&mut m, *result_len as u64);
            m.append(" chars)");
            Some(("✓", m))
        },
        AppEvent::JobFailed { error, .. } => {
            let mut m = text("Failed: ");
            m.append(error.as_str());
            Some(("✗", m))
        },
        _ => None,
    }
}

fn target_id(e: &AppEvent) -> (r: Option<&String>)
    ensures
        match target_job_of(*e) {
            None => r is None,
            Some(id) => r matches Some(s) && s@ == id,
        },
{
    match e {
        AppEvent::PaymentRequested { job_id, .. } => Some(job_id),
        AppEvent::PaymentReceived { job_id, .. } => Some(job_id),
        AppEvent::PaymentTimeout { job_id } => Some(job_id),
        AppEvent::SkillStarted { job_id, .. } => Some(job_id),
        AppEvent::LlmRound { job_id, .. } => Some(job_id),
        AppEvent::ToolStarted { job_id, .. } => Some(job_id),
        AppEvent::ToolCompleted { job_id, .. } => Some(job_id),
        AppEvent::ToolFailed { job_id, .. } => Some(job_id),
        AppEvent::JobCompleted { job_id, .. } => Some(job_id),
        AppEvent::JobFailed { job_id, .. } => Some(job_id),
        _ => None,
    }
}

/// Sets the fields an event changes on its job and logs the event's line.
fn apply_to_job(job: &mut JobEntry, e: &AppEvent, now: i64, time: &String)
    ensures
        final(job)@ == job_after(old(job)@, *e, now, time@),
{
    reveal(job_after);
    match e {
        AppEvent::PaymentRequested { price, fee, .. } => {
            job.price = Some(*price);
            job.fee = Some(*fee);
        },
        AppEvent::PaymentReceived { net_amount, .. } => {
            job.net_amount = Some(*net_amount);
            job.status = JobStatus::Processing;
        },
        AppEvent::PaymentTimeout { .. } => {
            job.status = JobStatus::Failed(text("payment timeout"));
            job.completed_at = Some(now);
        },
        AppEvent::SkillStarted { skill_name, .. } => {
            job.skill_name = Some(skill_name.clone());
            job.status = JobStatus::Processing;
        },
        AppEvent::JobCompleted { .. } => {
            job.status = JobStatus::Completed;
            job.completed_at = Some(now);
        },
        AppEvent::JobFailed { error, .. } => {
            job.status = JobStatus::Failed(error.clone());
            job.completed_at = Some(now);
        },
        _ => {},
    }
    let ghost mid = job@;
    assert(mid == job_fields_after(old(job)@, *e, now));
    match job_line(e) {
        Some((icon, message)) => {
            let line = LogLine { time: time.clone(), icon, message };
            let ghost before = job.logs@;
            job.logs.push(line);
            assert(job.logs@.map_values(|l: LogLine| l@) =~= before.map_values(|l: LogLine| l@).push(
                line@,
            ));
        },
        None => {},
    }
}

impl App {
    #[allow(clippy::too_many_arguments)]
    pub fn new(
        agent_name: String,
        skill_name: String,
        price: u64,
        free_mode: bool,
        wallet_balance: u64,
        network: String,
        sound_enabled: bool,
    ) -> (r: Self)
        ensures
            r@.screen == Screen::Main,
            r@.focus == Focus::Table,
            r@.jobs.len() == 0,
            r@.global_logs.len() == 0,
            r@.selected is None,
            r@.log_scroll == 0,
            r@.detail_scroll == 0,
            r.agent_name == agent_name,
            r.skill_name == skill_name,
            r@.price == price,
            r@.free_mode == free_mode,
            r@.wallet_balance == wallet_balance,
            r.network == network,
            r@.sound_enabled == sound_enabled,
    {
        App {
            screen: Screen::Main,
            focus: Focus::Table,
            jobs: Vec::new(),
            global_logs: VecDeque::new(),
            selected: None,
            log_scroll: 0,
            detail_scroll: 0,
            agent_name,
            skill_name,
            price,
            free_mode,
            wallet_balance,
            network,
            sound_enabled,
            origin: monotonic_now(),
        }
    }

    /// Milliseconds since the dashboard started, on the monotonic clock: the
    /// time base of the jobs' start and end times.
    pub fn now_ms(&self) -> (r: i64) {
        monotonic_ms_since(&self.origin)
    }

    /// Appends a global log line, dropping the oldest once there are more
    /// than `MAX_GLOBAL_LOGS`.
    pub fn add_global_log(&mut self, icon: &'static str, message: String, time: String)
        ensures
            final(self)@ == (AppView {
                global_logs: push_global(
                    old(self)@.global_logs,
                    LogView { time: time@, icon: icon@, message: message@ },
                ),
                ..old(self)@
            }),
    {
        let line = LogLine { time, icon, message };
        let ghost before = self.global_logs@;
        self.global_logs.push_back(line);
        assert(self.global_logs@.map_values(|l: LogLine| l@) =~= before.map_values(
            |l: LogLine| l@,
        ).push(line@));
        if self.global_logs.len() > MAX_GLOBAL_LOGS {
            let ghost full = self.global_logs@;
            let _ = self.global_logs.pop_front();
            assert(self.global_logs@.map_values(|l: LogLine| l@) =~= full.map_values(
                |l: LogLine| l@,
            ).drop_first());
        }
    }

    /// The index of the first job with the given id.
    fn find_job(&self, id: &String) -> (r: Option<usize>)
        ensures
            match first_job_index(self@.jobs, id@) {
                None => r is None,
                Some(i) => r matches Some(k) && k as int == i,
            },
            r matches Some(i) ==> i < self.jobs@.len() && self@.jobs[i as int].job_id == id@,
    {
        proof {
            lemma_first_job_index(self@.jobs, id@);
        }
        let ghost jobs = self@.jobs;
        let n = self.jobs.len();
        for i in 0..n
            invariant
                n == self.jobs@.len(),
                jobs == self@.jobs,
                forall|j: int| 0 <= j < i ==> jobs[j].job_id != id@,
        {
            if self.jobs[i].job_id == *id {
                proof {
                    assert(jobs[i as int].job_id == id@);
                    let c = choose|k: int|
                        0 <= k < jobs.len() && jobs[k].job_id == id@ && forall|j: int|
                            0 <= j < k ==> jobs[j].job_id != id@;
                    assert(0 <= c < jobs.len() && jobs[c].job_id == id@ && forall|j: int|
                        0 <= j < c ==> jobs[j].job_id != id@);
                    if c < i {
                        assert(jobs[c].job_id != id@);
                    }
                    if c > i {
                        assert(jobs[i as int].job_id != id@);
                    }
                }
                return Some(i);
            }
        }
        None
    }

    /// Logs an event in the global log.
    fn log_event(&mut self, e: &AppEvent, time: &String)
        requires
            event_sliceable(*e),
        ensures
            final(self)@ == (AppView {
                global_logs: global_logs_after(old(self)@.global_logs, *e, time@),
                ..old(self)@
            }),
    {
        match global_line(e) {
            Some((icon, message)) => self.add_global_log(icon, message, time.clone()),
            None => {},
        }
    }

    /// Adds a received job; selects it when nothing is selected.
    fn receive_job(&mut self, job_id: String, customer_id: String, input: String, now: i64, time: &String)
        ensures
            ({
                let e = AppEvent::JobReceived { job_id, customer_id, input };
                final(self)@ == jobs_part_after(old(self)@, e, now, time@)
            }),
    {
        let ghost e = AppEvent::JobReceived { job_id, customer_id, input };
        let mut logs: Vec<LogLine> = Vec::new();
        logs.push(LogLine { time: time.clone(), icon: "▶", message: text("Job received") });
        let entry = JobEntry {
            job_id,
            customer_id,
            input,
            status: JobStatus::PaymentPending,
            skill_name: None,
            price: None,
            fee: None,
            net_amount: None,
            started_at: now,
            completed_at: None,
            logs,
        };
        assert(entry@.logs =~= seq![log_view(time@, ("▶"@, "Job received"@))]);
        assert(entry@ == new_job_of(e, now, time@)) by {
            reveal(new_job_of);
        }
        let ghost before = self.jobs@;
        self.jobs.push(entry);
        assert(self.jobs@.map_values(|j: JobEntry| j@) =~= before.map_values(|j: JobEntry| j@).push(
            entry@,
        ));
        if self.selected.is_none() {
            self.selected = Some(self.jobs.len() - 1);
        }
    }

    /// Applies an event about an existing job to the first job with its id.
    #[verifier::rlimit(50)]
    fn update_job(&mut self, event: &AppEvent, now: i64, time: &String)
        requires
            !(event is JobReceived),
            !(event is WalletBalance),
        ensures
            final(self)@ == jobs_part_after(old(self)@, *event, now, time@),
    {
        match target_id(event) {
            Some(id) => {
                match self.find_job(id) {
                    Some(i) => {
                        let ghost before = self.jobs@;
                        let ghost old_app = self@;
                        apply_to_job(&mut self.jobs[i], event, now, time);
                        proof {
                            let new_job = self.jobs@[i as int];
                            assert(new_job@ == job_after(old_app.jobs[i as int], *event, now, time@));
                            assert(self.jobs@ == before.update(i as int, new_job));
                            assert(self@.jobs =~= old_app.jobs.update(i as int, new_job@));
                            assert(self@.global_logs == old_app.global_logs);
                            assert(self@ == (AppView {
                                jobs: old_app.jobs.update(i as int, new_job@),
                                ..old_app
                            }));
                            assert(first_job_index(old_app.jobs, target_job_of(*event)->0) == Some(
                                i as int,
                            ));
                        }
                    },
                    None => {},
                }
            },
            None => {},
        }
    }

    /// Applies an event at time `now` (milliseconds), stamping its log
    /// lines with `time`; gives the sound the event asks for.
    pub fn update_at(&mut self, event: AppEvent, now: i64, time: String) -> (r: Option<SoundCue>)
        requires
            event_sliceable(event),
        ensures
            final(self)@ == app_after(old(self)@, event, now, time@),
            r == sound_of(old(self)@, event),
    {
        let sound = match &event {
            AppEvent::PaymentReceived { .. } => if self.sound_enabled {
                Some(SoundCue::PaymentReceived)
            } else {
                None
            },
            _ => None,
        };
        self.log_event(&event, &time);
        match event {
            AppEvent::JobReceived { job_id, customer_id, input } => {
                self.receive_job(job_id, customer_id, input, now, &time);
            },
            AppEvent::WalletBalance(balance) => {
                self.wallet_balance = balance;
            },
            _ => {
                self.update_job(&event, now, &time);
            },
        }
        sound
    }

    /// Shows the detail of a job when there is one at `job_idx`; otherwise
    /// goes back to the main screen. Gives whether the job is there.
    pub fn open_detail(&mut self, job_idx: usize) -> (r: bool)
        ensures
            r == (job_idx < old(self)@.jobs.len()),
            final(self)@ == (AppView {
                screen: if r {
                    Screen::JobDetail(job_idx)
                } else {
                    Screen::Main
                },
                ..old(self)@
            }),
    {
        if job_idx < self.jobs.len() {
            self.screen = Screen::JobDetail(job_idx);
            true
        } else {
            self.screen = Screen::Main;
            false
        }
    }

    pub fn select_next(&mut self)
        ensures
            final(self)@ == (AppView { selected: next_selection(old(self)@.selected, old(self)@.jobs.len()), ..old(self)@ }),
    {
        if self.jobs.len() == 0 {
            return;
        }
        let i = match self.selected {
            Some(i) => if i >= self.jobs.len() - 1 {
                0
            } else {
                i + 1
            },
            None => 0,
        };
        self.selected = Some(i);
    }

    pub fn select_prev(&mut self)
        ensures
            final(self)@ == (AppView { selected: prev_selection(old(self)@.selected, old(self)@.jobs.len()), ..old(self)@ }),
    {
        if self.jobs.len() == 0 {
            return;
        }
        let i = match self.selected {
            Some(i) => if i == 0 {
                self.jobs.len() - 1
            } else {
                i - 1
            },
            None => 0,
        };
        self.selected = Some(i);
    }
}

/// The selection after moving down: wraps to the top after the last row.
pub open spec fn next_selection(sel: Option<usize>, n: nat) -> Option<usize> {
    if n == 0 {
        sel
    } else {
        match sel {
            Some(i) => if i + 1 >= n {
                Some(0)
            } else {
                Some((i + 1) as usize)
            },
            None => Some(0),
        }
    }
}

/// The selection after moving up: wraps to the bottom before the first row.
pub open spec fn prev_selection(sel: Option<usize>, n: nat) -> Option<usize> {
    if n == 0 {
        sel
    } else {
        match sel {
            Some(i) => if i == 0 {
                Some((n - 1) as usize)
            } else {
                Some((i - 1) as usize)
            },
            None => Some(0),
        }
    }
}

/// The dashboard after the sound setting is flipped and logged at `time`.
pub open spec fn sound_toggled(a: AppView, time: Seq<char>) -> AppView {
    let on = !a.sound_enabled;
    AppView {
        sound_enabled: on,
        global_logs: push_global(
            a.global_logs,
            LogView { time, icon: "♪"@, message: "Sound "@ + (if on { "ON"@ } else { "OFF"@ }) },
        ),
        ..a
    }
}

/// Calls `chrono::Local::now()` and formats it `%H:%M:%S`. Nothing is
/// claimed of it: it comes from the system clock and time zone.
#[verifier::external_body]
fn local_time_text() -> (r: String) {
    chrono::Local::now().format("%H:%M:%S").to_string()
}

impl App {
    /// Applies an event now, stamping its log lines with the local time;
    /// gives the sound the event asks for.
    pub fn update(&mut self, event: AppEvent) -> (r: Option<SoundCue>)
        requires
            event_sliceable(event),
        ensures
            exists|now: i64, time: Seq<char>| final(self)@ == app_after(old(self)@, event, now, time),
            r == sound_of(old(self)@, event),
    {
        let now = self.now_ms();
        let time = local_time_text();
        self.update_at(event, now, time)
    }

    /// Flips the sound setting and logs it, stamped `time`; gives the new
    /// setting, which the caller persists.
    pub fn toggle_sound_at(&mut self, time: String) -> (r: bool)
        ensures
            r == !old(self).sound_enabled,
            final(self)@ == sound_toggled(old(self)@, time@),
    {
        self.sound_enabled = !self.sound_enabled;
        let mut message = text("Sound ");
        message.append(if self.sound_enabled { "ON" } else { "OFF" });
        self.add_global_log("♪", message, time);
        self.sound_enabled
    }

    /// Flips the sound setting and logs it with the local time; gives the new
    /// setting, which the caller persists.
    pub fn toggle_sound(&mut self) -> (r: bool)
        ensures
            r == !old(self).sound_enabled,
            exists|time: Seq<char>| final(self)@ == #[trigger] sound_toggled(old(self)@, time),
    {
        let time = local_time_text();
        self.toggle_sound_at(time)
    }
}

// ---------------------------------------------------------------------------
// Keys.
// ---------------------------------------------------------------------------
/// A key the dashboard reacts to.
#[derive(Clone, Copy, PartialEq, Eq, Structural)]
pub enum Key {
    Char(char),
    Tab,
    Up,
    Down,
    Enter,
    Esc,
    Other,
}

/// What the caller does after a key.
#[derive(Debug, Clone, Copy, PartialEq, Eq, Structural)]
pub enum KeyOutcome {
    Continue,
    Quit,
    /// The sound setting was flipped to the value given; the caller persists it.
    SoundToggled(bool),
}

pub open spec fn scroll_down(s: u16) -> u16 {
    if s < u16::MAX {
        (s + 1) as u16
    } else {
        s
    }
}

pub open spec fn scroll_up(s: u16) -> u16 {
    if s > 0 {
        (s - 1) as u16
    } else {
        0
    }
}

/// The dashboard after a key, and what the caller is to do: `q` quits; on
/// the main screen `s` flips the sound, Tab switches pane, the arrows move
/// the selection or scroll the log, and Enter opens the selected job; on a
/// job's screen Esc goes back and the arrows scroll its events.
pub open spec fn key_result(a: AppView, key: Key, time: Seq<char>) -> (AppView, KeyOutcome) {
    if key == Key::Char('q') {
        (a, KeyOutcome::Quit)
    } else {
        match a.screen {
            Screen::Main => match key {
                Key::Char('s') => (sound_toggled(a, time), KeyOutcome::SoundToggled(!a.sound_enabled)),
                Key::Tab => (
                    AppView {
                        focus: if a.focus == Focus::Table {
                            Focus::Log
                        } else {
                            Focus::Table
                        },
                        ..a
                    },
                    KeyOutcome::Continue,
                ),
                Key::Down => (
                    if a.focus == Focus::Table {
                        AppView { selected: next_selection(a.selected, a.jobs.len()), ..a }
                    } else {
                        AppView { log_scroll: scroll_down(a.log_scroll), ..a }
                    },
                    KeyOutcome::Continue,
                ),
                Key::Up => (
                    if a.focus == Focus::Table {
                        AppView { selected: prev_selection(a.selected, a.jobs.len()), ..a }
                    } else {
                        AppView { log_scroll: scroll_up(a.log_scroll), ..a }
                    },
                    KeyOutcome::Continue,
                ),
                Key::Enter => (
                    match a.selected {
                        Some(i) => AppView {
                            detail_scroll: 0,
                            screen: if i < a.jobs.len() {
                                Screen::JobDetail(i)
                            } else {
                                Screen::Main
                            },
                            ..a
                        },
                        None => a,
                    },
                    KeyOutcome::Continue,
                ),
                _ => (a, KeyOutcome::Continue),
            },
            Screen::JobDetail(_) => match key {
                Key::Esc => (AppView { screen: Screen::Main, ..a }, KeyOutcome::Continue),
                Key::Down => (
                    AppView { detail_scroll: scroll_down(a.detail_scroll), ..a },
                    KeyOutcome::Continue,
                ),
                Key::Up => (
                    AppView { detail_scroll: scroll_up(a.detail_scroll), ..a },
                    KeyOutcome::Continue,
                ),
                _ => (a, KeyOutcome::Continue),
            },
        }
    }
}

impl App {
    /// Reacts to a key; a sound toggle is logged stamped `time`.
    pub fn handle_key_at(&mut self, key: Key, time: String) -> (r: KeyOutcome)
        ensures
            (final(self)@, r) == key_result(old(self)@, key, time@),
    {
        if key == Key::Char('q') {
            return KeyOutcome::Quit;
        }
        match self.screen {
            Screen::Main => match key {
                Key::Char('s') => KeyOutcome::SoundToggled(self.toggle_sound_at(time)),
                Key::Tab => {
                    self.focus = match self.focus {
                        Focus::Table => Focus::Log,
                        Focus::Log => Focus::Table,
                    };
                    KeyOutcome::Continue
                },
                Key::Down => {
                    if self.table_focused() {
                        self.select_next();
                    } else {
                        self.log_scroll = self.log_scroll.saturating_add(1);
                    }
                    KeyOutcome::Continue
                },
                Key::Up => {
                    if self.table_focused() {
                        self.select_prev();
                    } else {
                        self.log_scroll = self.log_scroll.saturating_sub(1);
                    }
                    KeyOutcome::Continue
                },
                Key::Enter => {
                    match self.selected {
                        Some(i) => {
                            self.detail_scroll = 0;
                            self.open_detail(i);
                        },
                        None => {},
                    }
                    KeyOutcome::Continue
                },
                _ => KeyOutcome::Continue,
            },
            Screen::JobDetail(_) => match key {
                Key::Esc => {
                    self.screen = Screen::Main;
                    KeyOutcome::Continue
                },
                Key::Down => {
                    self.detail_scroll = self.detail_scroll.saturating_add(1);
                    KeyOutcome::Continue
                },
                Key::Up => {
                    self.detail_scroll = self.detail_scroll.saturating_sub(1);
                    KeyOutcome::Continue
                },
                _ => KeyOutcome::Continue,
            },
        }
    }

    /// Reacts to a key; a sound toggle is logged with the local time.
    pub fn handle_key(&mut self, key: Key) -> (r: KeyOutcome)
        ensures
            exists|time: Seq<char>| (final(self)@, r) == #[trigger] key_result(old(self)@, key, time),
    {
        let time = local_time_text();
        self.handle_key_at(key, time)
    }
}

// ---------------------------------------------------------------------------
// Laws of the dashboard.
// ---------------------------------------------------------------------------
/// The selection, when there is one, is a row of the job table.
pub open spec fn selection_valid(a: AppView) -> bool {
    a.selected matches Some(i) ==> i < a.jobs.len()
}

/// The global log never holds more than `MAX_GLOBAL_LOGS` lines.
pub proof fn law_global_log_bounded(a: AppView, e: AppEvent, now: i64, time: Seq<char>)
    requires
        a.global_logs.len() <= MAX_GLOBAL_LOGS,
    ensures
        app_after(a, e, now, time).global_logs.len() <= MAX_GLOBAL_LOGS,
        sound_toggled(a, time).global_logs.len() <= MAX_GLOBAL_LOGS,
{
}

/// Events never remove jobs nor change which job stands in which row.
pub proof fn law_jobs_kept(a: AppView, e: AppEvent, now: i64, time: Seq<char>)
    ensures
        app_after(a, e, now, time).jobs.len() >= a.jobs.len(),
        forall|i: int|
            0 <= i < a.jobs.len() ==> #[trigger] app_after(a, e, now, time).jobs[i].job_id
                == a.jobs[i].job_id,
{
    reveal(job_after);
    lemma_first_job_index(a.jobs, target_job_of(e)->0);
}

/// A received job gets a row at the end; the first one is selected.
pub proof fn law_received_job_appended(a: AppView, e: AppEvent, now: i64, time: Seq<char>)
    requires
        e is JobReceived,
    ensures
        app_after(a, e, now, time).jobs.len() == a.jobs.len() + 1,
        app_after(a, e, now, time).jobs.last() == new_job_of(e, now, time),
        app_after(a, e, now, time).selected is Some,
        a.selected is Some ==> app_after(a, e, now, time).selected == a.selected,
{
}

/// Events, moves up and moves down keep the selection on a row.
pub proof fn law_selection_stays_valid(a: AppView, e: AppEvent, now: i64, time: Seq<char>)
    requires
        selection_valid(a),
    ensures
        selection_valid(app_after(a, e, now, time)),
        a.jobs.len() <= usize::MAX ==> selection_valid(
            AppView { selected: next_selection(a.selected, a.jobs.len()), ..a },
        ),
        a.jobs.len() <= usize::MAX ==> selection_valid(
            AppView { selected: prev_selection(a.selected, a.jobs.len()), ..a },
        ),
{
    law_jobs_kept(a, e, now, time);
}

/// Appending a line to a global log of at most `MAX_GLOBAL_LOGS` lines
/// keeps the lines before it, dropping the oldest only when the log was
/// full, and ends with the new line.
pub proof fn law_push_global(logs: Seq<LogView>, line: LogView)
    requires
        logs.len() <= MAX_GLOBAL_LOGS,
    ensures
        logs.len() < MAX_GLOBAL_LOGS ==> push_global(logs, line).len() == logs.len() + 1,
        logs.len() == MAX_GLOBAL_LOGS ==> push_global(logs, line).len() == MAX_GLOBAL_LOGS,
        push_global(logs, line).last() == line,
        logs.len() < MAX_GLOBAL_LOGS ==> push_global(logs, line) == logs.push(line),
        logs.len() == MAX_GLOBAL_LOGS ==> push_global(logs, line) == logs.drop_first().push(line),
{
    if logs.len() == MAX_GLOBAL_LOGS {
        assert(logs.push(line).drop_first() =~= logs.drop_first().push(line));
    }
}

/// The job an event names, for the events about an existing job.
pub open spec fn names_job(e: AppEvent, id: Seq<char>) -> bool {
    match e {
        AppEvent::PaymentRequested { job_id, .. } => job_id@ == id,
        AppEvent::PaymentReceived { job_id, .. } => job_id@ == id,
        AppEvent::PaymentTimeout { job_id } => job_id@ == id,
        AppEvent::SkillStarted { job_id, .. } => job_id@ == id,
        AppEvent::LlmRound { job_id, .. } => job_id@ == id,
        AppEvent::ToolStarted { job_id, .. } => job_id@ == id,
        AppEvent::ToolCompleted { job_id, .. } => job_id@ == id,
        AppEvent::ToolFailed { job_id, .. } => job_id@ == id,
        AppEvent::JobCompleted { job_id, .. } => job_id@ == id,
        AppEvent::JobFailed { job_id, .. } => job_id@ == id,
        _ => false,
    }
}

/// An event about a job changes only the first job with its id: it sets the
/// job's status, price, fee, net amount, skill and end time as the event
/// says, and appends one line, stamped `time`, to the job's log; every other
/// job stays as it was.
pub proof fn law_event_on_job(a: AppView, e: AppEvent, now: i64, time: Seq<char>, id: Seq<char>, i: int)
    requires
        names_job(e, id),
        0 <= i < a.jobs.len(),
        a.jobs[i].job_id == id,
        forall|j: int| 0 <= j < i ==> a.jobs[j].job_id != id,
    ensures
        ({
            let b = app_after(a, e, now, time).jobs;
            let old = a.jobs[i];
            let logged = |icon: Seq<char>, message: Seq<char>|
                old.logs.push(LogView { time, icon, message });
            &&& b.len() == a.jobs.len()
            &&& forall|j: int| 0 <= j < b.len() && j != i ==> b[j] == a.jobs[j]
            &&& b[i] == match e {
                AppEvent::PaymentRequested { price, fee, .. } => JobView {
                    price: Some(price),
                    fee: Some(fee),
                    logs: logged("$"@, "Requesting payment: "@ + sol_compact(price as nat) + " SOL"@),
                    ..old
                },
                AppEvent::PaymentReceived { net_amount, .. } => JobView {
                    net_amount: Some(net_amount),
                    status: StatusView::Processing,
                    logs: logged(
                        "✓"@,
                        "Payment received ("@ + sol_compact(net_amount as nat) + " SOL net)"@,
                    ),
                    ..old
                },
                AppEvent::PaymentTimeout { .. } => JobView {
                    status: StatusView::Failed("payment timeout"@),
                    completed_at: Some(now),
                    logs: logged("✗"@, "Payment timeout"@),
                    ..old
                },
                AppEvent::SkillStarted { skill_name, .. } => JobView {
                    skill_name: Some(skill_name@),
                    status: StatusView::Processing,
                    logs: logged("⚙"@, "Running skill "@ + skill_name@),
                    ..old
                },
                AppEvent::LlmRound { round, max_rounds, .. } => JobView {
                    logs: logged(
                        "⚙"@,
                        "LLM round "@ + decimal(round as nat) + "/"@ + decimal(max_rounds as nat),
                    ),
                    ..old
                },
                AppEvent::ToolStarted { tool_name, .. } => JobView {
                    logs: logged("→"@, "Running tool "@ + tool_name@),
                    ..old
                },
                AppEvent::ToolCompleted { tool_name, output_len, .. } => JobView {
                    logs: logged(
                        "←"@,
                        "Tool "@ + tool_name@ + " done ("@ + decimal(output_len as nat) + " chars)"@,
                    ),
                    ..old
                },
                AppEvent::ToolFailed { tool_name, error, .. } => JobView {
                    logs: logged("✗"@, "Tool "@ + tool_name@ + " failed: "@ + error@),
                    ..old
                },
                AppEvent::JobCompleted { result_len, .. } => JobView {
                    status: StatusView::Completed,
                    completed_at: Some(now),
                    logs: logged(
                        "✓"@,
                        "Result delivered ("@ + decimal(result_len as nat) + " chars)"@,
                    ),
                    ..old
                },
                AppEvent::JobFailed { error, .. } => JobView {
                    status: StatusView::Failed(error@),
                    completed_at: Some(now),
                    logs: logged("✗"@, "Failed: "@ + error@),
                    ..old
                },
                _ => old,
            }
        }),
{
    reveal(job_after);
    reveal(job_line_of);
    lemma_first_job_index(a.jobs, id);
    assert(first_job_index(a.jobs, id) == Some(i)) by {
        let k = first_job_index(a.jobs, id)->0;
        if k < i {
            assert(a.jobs[k].job_id != id);
        } else if k > i {
            assert(a.jobs[i].job_id != id);
        }
    }
}

/// An event about a job that is not on the dashboard leaves the jobs as
/// they are.
pub proof fn law_event_on_unknown_job(a: AppView, e: AppEvent, now: i64, time: Seq<char>, id: Seq<char>)
    requires
        names_job(e, id),
        forall|j: int| 0 <= j < a.jobs.len() ==> a.jobs[j].job_id != id,
    ensures
        app_after(a, e, now, time).jobs == a.jobs,
        app_after(a, e, now, time).selected == a.selected,
{
    lemma_first_job_index(a.jobs, id);
}

/// A received job is added at the end as awaiting payment, with its id,
/// customer and input, started at `now` and with one log line; a wallet
/// balance event only sets the balance.
pub proof fn law_job_received(a: AppView, e: AppEvent, now: i64, time: Seq<char>)
    ensures
        e matches AppEvent::JobReceived { job_id, customer_id, input } ==> app_after(a, e, now, time).jobs
            == a.jobs.push(
            JobView {
                job_id: job_id@,
                customer_id: customer_id@,
                input: input@,
                status: StatusView::PaymentPending,
                skill_name: None,
                price: None,
                fee: None,
                net_amount: None,
                started_at: now,
                completed_at: None,
                logs: seq![LogView { time, icon: "▶"@, message: "Job received"@ }],
            },
        ),
        e matches AppEvent::WalletBalance(b) ==> app_after(a, e, now, time).wallet_balance == b
            && app_after(a, e, now, time).jobs == a.jobs,
{
    reveal(new_job_of);
}

/// Moving down then up (or up then down) returns to the selected row.
pub proof fn law_select_round_trip(sel: usize, n: nat)
    requires
        sel < n,
        n <= usize::MAX,
    ensures
        prev_selection(next_selection(Some(sel), n), n) == Some(sel),
        next_selection(prev_selection(Some(sel), n), n) == Some(sel),
{
}

/// `q` quits from any screen and changes nothing. On the main screen Tab
/// twice gives the focus back, and `s` flips the sound, tells the caller the
/// new setting, and a second `s` restores it. On a job's screen Esc goes
/// back to the main screen with nothing else changed.
pub proof fn law_keys(a: AppView, time: Seq<char>)
    ensures
        key_result(a, Key::Char('q'), time) == (a, KeyOutcome::Quit),
        a.screen == Screen::Main ==> ({
            let (b, o) = key_result(a, Key::Tab, time);
            &&& o == KeyOutcome::Continue
            &&& b.focus != a.focus
            &&& key_result(b, Key::Tab, time).0 == a
        }),
        a.screen == Screen::Main ==> ({
            let (b, o1) = key_result(a, Key::Char('s'), time);
            let (c, o2) = key_result(b, Key::Char('s'), time);
            &&& o1 == KeyOutcome::SoundToggled(!a.sound_enabled)
            &&& b.sound_enabled == !a.sound_enabled
            &&& o2 == KeyOutcome::SoundToggled(a.sound_enabled)
            &&& c.sound_enabled == a.sound_enabled
        }),
        a.screen is JobDetail ==> key_result(a, Key::Esc, time) == (
            AppView { screen: Screen::Main, ..a },
            KeyOutcome::Continue,
        ),
{
}

/// Enter opens the selected job, whichever it is.
pub proof fn law_enter_opens_selected(a: AppView, i: usize, time: Seq<char>)
    requires
        a.screen == Screen::Main,
        a.selected == Some(i),
        i < a.jobs.len(),
    ensures
        key_result(a, Key::Enter, time) == (
            AppView { screen: Screen::JobDetail(i), detail_scroll: 0, ..a },
            KeyOutcome::Continue,
        ),
{
}

} // verus!
