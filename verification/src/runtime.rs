//! The paid-job flow of an agent: the decisions between the outside steps
//! (payment requests, feedback, skill execution, delivery), as a state
//! machine that the runner drives.
use vstd::prelude::*;

use crate::tui::{AppEvent, AppEventView};

verus! {

/// Protocol fee in basis points (3%).
pub const PROTOCOL_FEE_BPS: u64 = 300;

/// Basis points in a whole.
pub const BPS_DENOMINATOR: u64 = 10_000;

/// Largest price whose fee computation `price * PROTOCOL_FEE_BPS` fits in a `u64`.
pub const MAX_FEE_PRICE: u64 = 61_489_146_912_365_172;

/// Interval between payment lookups, in milliseconds.
pub const POLL_INTERVAL_MS: u64 = 2_000;

/// The protocol fee on a price: `PROTOCOL_FEE_BPS` basis points, rounded up.
pub open spec fn protocol_fee_of(price: int) -> int {
    (price * PROTOCOL_FEE_BPS + BPS_DENOMINATOR - 1) / (BPS_DENOMINATOR as int)
}

/// What the provider keeps of a price.
pub open spec fn provider_net_of(price: int) -> int {
    price - protocol_fee_of(price)
}

/// The protocol fee on a price, rounded up to a whole lamport.
pub fn protocol_fee(price: u64) -> (r: u64)
    requires
        price <= MAX_FEE_PRICE,
    ensures
        r == protocol_fee_of(price as int),
{
    let scaled = price * PROTOCOL_FEE_BPS;
    let q = scaled / BPS_DENOMINATOR;
    if scaled % BPS_DENOMINATOR == 0 {
        q
    } else {
        q + 1
    }
}

/// What the provider keeps of a price after the protocol fee.
pub fn provider_net(price: u64) -> (r: u64)
    requires
        price <= MAX_FEE_PRICE,
    ensures
        r == provider_net_of(price as int),
{
    let fee = protocol_fee(price);
    proof {
        law_fee_split(price as int);
    }
    price - fee
}

/// The fee is at most the price, fee and net add up to the price, and the
/// fee is the least whole amount not below 3% of the price.
pub proof fn law_fee_split(price: int)
    requires
        price >= 0,
    ensures
        0 <= protocol_fee_of(price) <= price,
        protocol_fee_of(price) + provider_net_of(price) == price,
        protocol_fee_of(price) * BPS_DENOMINATOR >= price * PROTOCOL_FEE_BPS,
        (protocol_fee_of(price) - 1) * BPS_DENOMINATOR < price * PROTOCOL_FEE_BPS,
{
    let f = protocol_fee_of(price);
    assert(f * 10000 <= price * 300 + 9999 < f * 10000 + 10000) by (nonlinear_arith)
        requires
            f == (price * 300 + 9999) / 10000,
    ;
}

/// Settings of the job runner.
pub struct RuntimeConfig {
    pub free_mode: bool,
    pub job_price: u64,
    pub payment_timeout_secs: u32,
    pub max_concurrent_jobs: usize,
}

impl Default for RuntimeConfig {
    fn default() -> (r: Self)
        ensures
            !r.free_mode,
            r.job_price == 10_000_000,
            r.payment_timeout_secs == 120,
            r.max_concurrent_jobs == 10,
    {
        RuntimeConfig {
            free_mode: false,
            job_price: 10_000_000,
            payment_timeout_secs: 120,
            max_concurrent_jobs: 10,
        }
    }
}

/// A job request as it arrives from the network.
pub struct IncomingJob {
    pub job_id: String,
    pub customer_id: String,
    pub input: String,
    pub input_type: String,
    pub tags: Vec<String>,
}

/// What a skill is given to run a job. Its metadata is always JSON `null`,
/// so it is not held here.
pub struct SkillInput {
    pub data: String,
    pub input_type: String,
    pub tags: Vec<String>,
    pub job_id: String,
}

/// The skill's input for a job: the job's input, input type, tags and id.
pub fn skill_input(job: &IncomingJob) -> (r: SkillInput)
    ensures
        r.data@ == job.input@,
        r.input_type@ == job.input_type@,
        r.tags@ == job.tags@,
        r.job_id@ == job.job_id@,
{
    SkillInput {
        data: job.input.clone(),
        input_type: job.input_type.clone(),
        tags: job.tags.clone(),
        job_id: job.job_id.clone(),
    }
}

// ---------------------------------------------------------------------------
// The job flow.
// ---------------------------------------------------------------------------
/// Where a job stands; each stage waits for one kind of input.
#[derive(Clone, Copy, PartialEq, Eq, Structural)]
pub enum JobStage {
    /// Not begun.
    Start,
    /// Waiting for the payment request to be created.
    RequestingPayment,
    /// Waiting for the PaymentRequired feedback to be sent.
    AnnouncingPrice,
    /// Waiting for a payment lookup.
    Polling,
    /// Waiting to wake up for the next lookup.
    Sleeping,
    /// Waiting for the feedback on a failed payment request to be sent.
    ReportingPaymentError,
    /// Waiting for the payment-timeout feedback to be sent.
    ReportingTimeout,
    /// Waiting for the Processing feedback to be sent.
    StartingWork,
    /// Waiting for a skill to be chosen.
    Routing,
    /// Waiting for the skill to finish.
    Executing,
    /// Waiting for the feedback on a failed execution to be sent.
    ReportingFailure,
    /// Waiting for the result to be delivered.
    Delivering,
    /// Waiting for the wallet balance.
    ReadingBalance,
    /// Finished.
    Done,
}

/// What the runner reports back after carrying out an action.
pub enum JobInput {
    /// Start; whether the agent has payments and Solana payments configured.
    Begin { payments: bool, solana: bool },
    PaymentRequestCreated,
    PaymentRequestFailed { error: String },
    /// Feedback was sent at `now_ms`.
    FeedbackSent { now_ms: u64 },
    /// A feedback or delivery call failed.
    TransportFailed { error: String },
    /// A payment lookup; `settled` is false when the lookup failed.
    PaymentChecked { settled: bool, now_ms: u64 },
    Woke,
    SkillRouted { skill_name: Option<String> },
    /// The skill finished: the length of its output, or its error.
    SkillFinished { outcome: Result<usize, String> },
    Delivered,
    /// The wallet balance, when Solana payments are configured and readable.
    BalanceRead { balance: Option<u64> },
}

/// Feedback to the customer.
pub enum JobFeedback {
    /// Pay `amount` lamports for the request that was created.
    PaymentRequired { amount: u64 },
    Processing,
    Error(String),
}

/// What the runner is asked to do next.
pub enum JobAction {
    CreatePaymentRequest { price: u64, fee: u64, description: String, timeout_secs: u32 },
    SendFeedback(JobFeedback),
    LookupPayment,
    SleepUntil { at_ms: u64 },
    RouteSkill,
    ExecuteSkill,
    /// Deliver the output, with the amount the provider was paid.
    DeliverResult { amount: Option<u64> },
    ReadBalance,
    Notify(AppEvent),
    /// The job is over; `error` tells why it failed.
    Finish { error: Option<String> },
}

/// One job in flight.
pub struct JobFlow {
    pub job_id: String,
    pub stage: JobStage,
    pub free_mode: bool,
    pub price: u64,
    pub fee: u64,
    pub timeout_secs: u32,
    pub deadline_ms: u64,
    /// The amount the provider was paid, once known.
    pub amount: Option<u64>,
    pub result_len: usize,
    /// The error to finish with once its feedback is sent.
    pub pending_error: String,
}

pub enum FeedbackView {
    PaymentRequired { amount: u64 },
    Processing,
    Error(Seq<char>),
}

pub enum ActionView {
    CreatePaymentRequest { price: u64, fee: u64, description: Seq<char>, timeout_secs: u32 },
    SendFeedback(FeedbackView),
    LookupPayment,
    SleepUntil { at_ms: u64 },
    RouteSkill,
    ExecuteSkill,
    DeliverResult { amount: Option<u64> },
    ReadBalance,
    Notify(AppEventView),
    Finish { error: Option<Seq<char>> },
}

pub enum InputView {
    Begin { payments: bool, solana: bool },
    PaymentRequestCreated,
    PaymentRequestFailed { error: Seq<char> },
    FeedbackSent { now_ms: u64 },
    TransportFailed { error: Seq<char> },
    PaymentChecked { settled: bool, now_ms: u64 },
    Woke,
    SkillRouted { skill_name: Option<Seq<char>> },
    SkillFinished { outcome: Result<usize, Seq<char>> },
    Delivered,
    BalanceRead { balance: Option<u64> },
}

pub struct FlowView {
    pub job_id: Seq<char>,
    pub stage: JobStage,
    pub free_mode: bool,
    pub price: u64,
    pub fee: u64,
    pub timeout_secs: u32,
    pub deadline_ms: u64,
    pub amount: Option<u64>,
    pub result_len: usize,
    pub pending_error: Seq<char>,
}

impl View for JobFeedback {
    type V = FeedbackView;

    open spec fn view(&self) -> FeedbackView {
        match self {
            JobFeedback::PaymentRequired { amount } => FeedbackView::PaymentRequired {
                amount: *amount,
            },
            JobFeedback::Processing => FeedbackView::Processing,
            JobFeedback::Error(e) => FeedbackView::Error(e@),
        }
    }
}

impl View for JobAction {
    type V = ActionView;

    open spec fn view(&self) -> ActionView {
        match self {
            JobAction::CreatePaymentRequest { price, fee, description, timeout_secs } =>
                ActionView::CreatePaymentRequest {
                price: *price,
                fee: *fee,
                description: description@,
                timeout_secs: *timeout_secs,
            },
            JobAction::SendFeedback(f) => ActionView::SendFeedback(f@),
            JobAction::LookupPayment => ActionView::LookupPayment,
            JobAction::SleepUntil { at_ms } => ActionView::SleepUntil { at_ms: *at_ms },
            JobAction::RouteSkill => ActionView::RouteSkill,
            JobAction::ExecuteSkill => ActionView::ExecuteSkill,
            JobAction::DeliverResult { amount } => ActionView::DeliverResult { amount: *amount },
            JobAction::ReadBalance => ActionView::ReadBalance,
            JobAction::Notify(e) => ActionView::Notify(e@),
            JobAction::Finish { error } => ActionView::Finish {
                error: match error {
                    Some(e) => Some(e@),
                    None => None,
                },
            },
        }
    }
}

impl View for JobInput {
    type V = InputView;

    open spec fn view(&self) -> InputView {
        match self {
            JobInput::Begin { payments, solana } => InputView::Begin {
                payments: *payments,
                solana: *solana,
            },
            JobInput::PaymentRequestCreated => InputView::PaymentRequestCreated,
            JobInput::PaymentRequestFailed { error } => InputView::PaymentRequestFailed {
                error: error@,
            },
            JobInput::FeedbackSent { now_ms } => InputView::FeedbackSent { now_ms: *now_ms },
            JobInput::TransportFailed { error } => InputView::TransportFailed { error: error@ },
            JobInput::PaymentChecked { settled, now_ms } => InputView::PaymentChecked {
                settled: *settled,
                now_ms: *now_ms,
            },
            JobInput::Woke => InputView::Woke,
            JobInput::SkillRouted { skill_name } => InputView::SkillRouted {
                skill_name: match skill_name {
                    Some(s) => Some(s@),
                    None => None,
                },
            },
            JobInput::SkillFinished { outcome } => InputView::SkillFinished {
                outcome: match outcome {
                    Ok(n) => Ok(*n),
                    Err(e) => Err(e@),
                },
            },
            JobInput::Delivered => InputView::Delivered,
            JobInput::BalanceRead { balance } => InputView::BalanceRead { balance: *balance },
        }
    }
}

impl View for JobFlow {
    type V = FlowView;

    open spec fn view(&self) -> FlowView {
        FlowView {
            job_id: self.job_id@,
            stage: self.stage,
            free_mode: self.free_mode,
            price: self.price,
            fee: self.fee,
            timeout_secs: self.timeout_secs,
            deadline_ms: self.deadline_ms,
            amount: self.amount,
            result_len: self.result_len,
            pending_error: self.pending_error@,
        }
    }
}

// ---------------------------------------------------------------------------
// The transition table.
// ---------------------------------------------------------------------------
/// Ends the job with an error: the dashboard is told, then the runner.
pub open spec fn fail_actions(job_id: Seq<char>, error: Seq<char>) -> Seq<ActionView> {
    seq![
        ActionView::Notify(AppEventView::JobFailed { job_id, error }),
        ActionView::Finish { error: Some(error) },
    ]
}

pub open spec fn at_stage(f: FlowView, stage: JobStage) -> FlowView {
    FlowView { stage, ..f }
}

/// The deadline for a payment announced at `now`: `timeout_secs` later.
pub open spec fn payment_deadline(now: u64, timeout_secs: u32) -> u64 {
    let d = now + timeout_secs * 1000;
    if d > u64::MAX {
        u64::MAX
    } else {
        d as u64
    }
}

/// The next wake-up while polling: the poll interval later, but not past the
/// deadline.
pub open spec fn next_wake(now: u64, deadline: u64) -> u64 {
    let t = now + POLL_INTERVAL_MS;
    if t > deadline {
        deadline
    } else {
        t as u64
    }
}

/// The state after an input, and the actions it calls for. An input that
/// the stage does not wait for changes nothing.
pub open spec fn flow_step(f: FlowView, i: InputView) -> (FlowView, Seq<ActionView>) {
    let unchanged = (f, Seq::<ActionView>::empty());
    let id = f.job_id;
    match (f.stage, i) {
        (JobStage::Start, InputView::Begin { payments, solana }) => if f.free_mode {
            (
                FlowView { stage: JobStage::StartingWork, amount: None, ..f },
                seq![ActionView::SendFeedback(FeedbackView::Processing)],
            )
        } else if !payments {
            (at_stage(f, JobStage::Done), fail_actions(id, "payments not configured"@))
        } else if !solana {
            (at_stage(f, JobStage::Done), fail_actions(id, "solana payments not configured"@))
        } else {
            (
                at_stage(f, JobStage::RequestingPayment),
                seq![
                    ActionView::CreatePaymentRequest {
                        price: f.price,
                        fee: f.fee,
                        description: "elisym job "@ + id,
                        timeout_secs: f.timeout_secs,
                    },
                ],
            )
        },
        (JobStage::RequestingPayment, InputView::PaymentRequestCreated) => (
            at_stage(f, JobStage::AnnouncingPrice),
            seq![
                ActionView::Notify(
                    AppEventView::PaymentRequested { job_id: id, price: f.price, fee: f.fee },
                ),
                ActionView::SendFeedback(FeedbackView::PaymentRequired { amount: f.price }),
            ],
        ),
        (JobStage::RequestingPayment, InputView::PaymentRequestFailed { error }) => (
            FlowView { stage: JobStage::ReportingPaymentError, pending_error: error, ..f },
            seq![ActionView::SendFeedback(FeedbackView::Error("payment error: "@ + error))],
        ),
        (JobStage::AnnouncingPrice, InputView::FeedbackSent { now_ms }) => (
            FlowView {
                stage: JobStage::Polling,
                deadline_ms: payment_deadline(now_ms, f.timeout_secs),
                ..f
            },
            seq![ActionView::LookupPayment],
        ),
        (JobStage::Polling, InputView::PaymentChecked { settled, now_ms }) => if settled {
            let net = (f.price - f.fee) as u64;
            (
                FlowView { stage: JobStage::StartingWork, amount: Some(net), ..f },
                seq![
                    ActionView::Notify(AppEventView::PaymentReceived { job_id: id, net_amount: net }),
                    ActionView::SendFeedback(FeedbackView::Processing),
                ],
            )
        } else if now_ms >= f.deadline_ms {
            (
                FlowView {
                    stage: JobStage::ReportingTimeout,
                    pending_error: "payment timeout"@,
                    ..f
                },
                seq![
                    ActionView::Notify(AppEventView::PaymentTimeout { job_id: id }),
                    ActionView::SendFeedback(FeedbackView::Error("payment timeout"@)),
                ],
            )
        } else {
            (
                at_stage(f, JobStage::Sleeping),
                seq![ActionView::SleepUntil { at_ms: next_wake(now_ms, f.deadline_ms) }],
            )
        },
        (JobStage::Sleeping, InputView::Woke) => (
            at_stage(f, JobStage::Polling),
            seq![ActionView::LookupPayment],
        ),
        (JobStage::ReportingPaymentError, InputView::FeedbackSent { .. }) => (
            at_stage(f, JobStage::Done),
            fail_actions(id, f.pending_error),
        ),
        (JobStage::ReportingTimeout, InputView::FeedbackSent { .. }) => (
            at_stage(f, JobStage::Done),
            fail_actions(id, f.pending_error),
        ),
        (JobStage::StartingWork, InputView::FeedbackSent { .. }) => (
            at_stage(f, JobStage::Routing),
            seq![ActionView::RouteSkill],
        ),
        (JobStage::Routing, InputView::SkillRouted { skill_name }) => match skill_name {
            None => (
                at_stage(f, JobStage::Done),
                fail_actions(id, "no skill available to handle this job"@),
            ),
            Some(name) => (
                at_stage(f, JobStage::Executing),
                seq![
                    ActionView::Notify(AppEventView::SkillStarted { job_id: id, skill_name: name }),
                    ActionView::ExecuteSkill,
                ],
            ),
        },
        (JobStage::Executing, InputView::SkillFinished { outcome }) => match outcome {
            Ok(len) => (
                FlowView { stage: JobStage::Delivering, result_len: len, ..f },
                seq![ActionView::DeliverResult { amount: f.amount }],
            ),
            Err(error) => (
                FlowView { stage: JobStage::ReportingFailure, pending_error: error, ..f },
                seq![
                    ActionView::Notify(AppEventView::JobFailed { job_id: id, error }),
                    ActionView::SendFeedback(FeedbackView::Error("processing failed: "@ + error)),
                ],
            ),
        },
        (JobStage::ReportingFailure, InputView::FeedbackSent { .. }) => (
            at_stage(f, JobStage::Done),
            fail_actions(id, f.pending_error),
        ),
        (JobStage::Delivering, InputView::Delivered) => (
            at_stage(f, JobStage::ReadingBalance),
            seq![
                ActionView::Notify(
                    AppEventView::JobCompleted { job_id: id, result_len: f.result_len },
                ),
                ActionView::ReadBalance,
            ],
        ),
        (JobStage::ReadingBalance, InputView::BalanceRead { balance }) => (
            at_stage(f, JobStage::Done),
            match balance {
                Some(b) => seq![
                    ActionView::Notify(AppEventView::WalletBalance(b)),
                    ActionView::Finish { error: None },
                ],
                None => seq![ActionView::Finish { error: None }],
            },
        ),
        (JobStage::AnnouncingPrice, InputView::TransportFailed { error }) => (
            at_stage(f, JobStage::Done),
            fail_actions(id, error),
        ),
        (JobStage::ReportingPaymentError, InputView::TransportFailed { error }) => (
            at_stage(f, JobStage::Done),
            fail_actions(id, error),
        ),
        (JobStage::ReportingTimeout, InputView::TransportFailed { error }) => (
            at_stage(f, JobStage::Done),
            fail_actions(id, error),
        ),
        (JobStage::StartingWork, InputView::TransportFailed { error }) => (
            at_stage(f, JobStage::Done),
            fail_actions(id, error),
        ),
        (JobStage::ReportingFailure, InputView::TransportFailed { error }) => (
            at_stage(f, JobStage::Done),
            fail_actions(id, error),
        ),
        (JobStage::Delivering, InputView::TransportFailed { error }) => (
            at_stage(f, JobStage::Done),
            fail_actions(id, error),
        ),
        _ => unchanged,
    }
}

pub open spec fn actions_view(a: Seq<JobAction>) -> Seq<ActionView> {
    a.map_values(|x: JobAction| x@)
}

fn text(s: &str) -> (r: String)
    ensures
        r@ == s@,
{
    String::from_str(s)
}

fn one(a: JobAction) -> (r: Vec<JobAction>)
    ensures
        actions_view(r@) == seq![a@],
{
    let mut v = Vec::new();
    v.push(a);
    assert(actions_view(v@) =~= seq![a@]);
    v
}

fn two(a: JobAction, b: JobAction) -> (r: Vec<JobAction>)
    ensures
        actions_view(r@) == seq![a@, b@],
{
    let mut v = Vec::new();
    v.push(a);
    v.push(b);
    assert(actions_view(v@) =~= seq![a@, b@]);
    v
}

impl JobFlow {
    /// The fee is the protocol fee on the price whenever payment is collected.
    pub open spec fn wf(&self) -> bool {
        &&& self.fee <= self.price
        &&& !self.free_mode ==> (self.price <= MAX_FEE_PRICE && self.fee == protocol_fee_of(
            self.price as int,
        ))
    }

    /// A job that has just arrived; the fee is only computed when payment
    /// will be collected.
    pub fn new(job_id: String, config: &RuntimeConfig) -> (r: JobFlow)
        requires
            !config.free_mode ==> config.job_price <= MAX_FEE_PRICE,
        ensures
            r.wf(),
            r@ == (FlowView {
                job_id: job_id@,
                stage: JobStage::Start,
                free_mode: config.free_mode,
                price: config.job_price,
                fee: if config.free_mode {
                    0
                } else {
                    protocol_fee_of(config.job_price as int) as u64
                },
                timeout_secs: config.payment_timeout_secs,
                deadline_ms: 0,
                amount: None,
                result_len: 0,
                pending_error: Seq::empty(),
            }),
    {
        let fee = if config.free_mode {
            0
        } else {
            protocol_fee(config.job_price)
        };
        proof {
            law_fee_split(config.job_price as int);
        }
        JobFlow {
            job_id,
            stage: JobStage::Start,
            free_mode: config.free_mode,
            price: config.job_price,
            fee,
            timeout_secs: config.payment_timeout_secs,
            deadline_ms: 0,
            amount: None,
            result_len: 0,
            pending_error: String::new(),
        }
    }

    fn fail(&mut self, error: String) -> (r: Vec<JobAction>)
        ensures
            final(self)@ == at_stage(old(self)@, JobStage::Done),
            actions_view(r@) == fail_actions(old(self)@.job_id, error@),
    {
        self.stage = JobStage::Done;
        two(
            JobAction::Notify(AppEvent::JobFailed { job_id: self.job_id.clone(), error: error.clone() }),
            JobAction::Finish { error: Some(error) },
        )
    }

    /// Takes in what the runner reports and gives the actions to carry out.
    pub fn step(&mut self, input: JobInput) -> (r: Vec<JobAction>)
        requires
            old(self).wf(),
        ensures
            final(self).wf(),
            (final(self)@, actions_view(r@)) == flow_step(old(self)@, input@),
    {
        let stage = self.stage;
        match (stage, input) {
            (JobStage::Start, JobInput::Begin { payments, solana }) => {
                if self.free_mode {
                    self.stage = JobStage::StartingWork;
                    self.amount = None;
                    one(JobAction::SendFeedback(JobFeedback::Processing))
                } else if !payments {
                    self.fail(text("payments not configured"))
                } else if !solana {
                    self.fail(text("solana payments not configured"))
                } else {
                    self.stage = JobStage::RequestingPayment;
                    let mut description = text("elisym job ");
                    description.append(self.job_id.as_str());
                    one(
                        JobAction::CreatePaymentRequest {
                            price: self.price,
                            fee: self.fee,
                            description,
                            timeout_secs: self.timeout_secs,
                        },
                    )
                }
            },
            (JobStage::RequestingPayment, JobInput::PaymentRequestCreated) => {
                self.stage = JobStage::AnnouncingPrice;
                two(
                    JobAction::Notify(
                        AppEvent::PaymentRequested {
                            job_id: self.job_id.clone(),
                            price: self.price,
                            fee: self.fee,
                        },
                    ),
                    JobAction::SendFeedback(JobFeedback::PaymentRequired { amount: self.price }),
                )
            },
            (JobStage::RequestingPayment, JobInput::PaymentRequestFailed { error }) => {
                self.stage = JobStage::ReportingPaymentError;
                let mut message = text("payment error: ");
                message.append(error.as_str());
                self.pending_error = error;
                one(JobAction::SendFeedback(JobFeedback::Error(message)))
            },
            (JobStage::AnnouncingPrice, JobInput::FeedbackSent { now_ms }) => {
                self.stage = JobStage::Polling;
                let span: u64 = self.timeout_secs as u64 * 1000;
                self.deadline_ms = now_ms.saturating_add(span);
                one(JobAction::LookupPayment)
            },
            (JobStage::Polling, JobInput::PaymentChecked { settled, now_ms }) => {
                if settled {
                    let net = self.price - self.fee;
                    self.stage = JobStage::StartingWork;
                    self.amount = Some(net);
                    two(
                        JobAction::Notify(
                            AppEvent::PaymentReceived { job_id: self.job_id.clone(), net_amount: net },
                        ),
                        JobAction::SendFeedback(JobFeedback::Processing),
                    )
                } else if now_ms >= self.deadline_ms {
                    self.stage = JobStage::ReportingTimeout;
                    self.pending_error = text("payment timeout");
                    two(
                        JobAction::Notify(AppEvent::PaymentTimeout { job_id: self.job_id.clone() }),
                        JobAction::SendFeedback(JobFeedback::Error(text("payment timeout"))),
                    )
                } else {
                    self.stage = JobStage::Sleeping;
                    let t = now_ms.saturating_add(POLL_INTERVAL_MS);
                    let at_ms = if t > self.deadline_ms {
                        self.deadline_ms
                    } else {
                        t
                    };
                    one(JobAction::SleepUntil { at_ms })
                }
            },
            (JobStage::Sleeping, JobInput::Woke) => {
                self.stage = JobStage::Polling;
                one(JobAction::LookupPayment)
            },
            (JobStage::ReportingPaymentError, JobInput::FeedbackSent { .. })
            | (JobStage::ReportingTimeout, JobInput::FeedbackSent { .. })
            | (JobStage::ReportingFailure, JobInput::FeedbackSent { .. }) => {
                let error = self.pending_error.clone();
                self.fail(error)
            },
            (JobStage::StartingWork, JobInput::FeedbackSent { .. }) => {
                self.stage = JobStage::Routing;
                one(JobAction::RouteSkill)
            },
            (JobStage::Routing, JobInput::SkillRouted { skill_name }) => {
                match skill_name {
                    None => self.fail(text("no skill available to handle this job")),
                    Some(name) => {
                        self.stage = JobStage::Executing;
                        two(
                            JobAction::Notify(
                                AppEvent::SkillStarted { job_id: self.job_id.clone(), skill_name: name },
                            ),
                            JobAction::ExecuteSkill,
                        )
                    },
                }
            },
            (JobStage::Executing, JobInput::SkillFinished { outcome }) => {
                match outcome {
                    Ok(len) => {
                        self.stage = JobStage::Delivering;
                        self.result_len = len;
                        one(JobAction::DeliverResult { amount: self.amount })
                    },
                    Err(error) => {
                        self.stage = JobStage::ReportingFailure;
                        let mut message = text("processing failed: ");
                        message.append(error.as_str());
                        self.pending_error = error.clone();
                        two(
                            JobAction::Notify(
                                AppEvent::JobFailed { job_id: self.job_id.clone(), error },
                            ),
                            JobAction::SendFeedback(JobFeedback::Error(message)),
                        )
                    },
                }
            },
            (JobStage::Delivering, JobInput::Delivered) => {
                self.stage = JobStage::ReadingBalance;
                two(
                    JobAction::Notify(
                        AppEvent::JobCompleted {
                            job_id: self.job_id.clone(),
                            result_len: self.result_len,
                        },
                    ),
                    JobAction::ReadBalance,
                )
            },
            (JobStage::ReadingBalance, JobInput::BalanceRead { balance }) => {
                self.stage = JobStage::Done;
                match balance {
                    Some(b) => two(
                        JobAction::Notify(AppEvent::WalletBalance(b)),
                        JobAction::Finish { error: None },
                    ),
                    None => one(JobAction::Finish { error: None }),
                }
            },
            (JobStage::AnnouncingPrice, JobInput::TransportFailed { error })
            | (JobStage::ReportingPaymentError, JobInput::TransportFailed { error })
            | (JobStage::ReportingTimeout, JobInput::TransportFailed { error })
            | (JobStage::StartingWork, JobInput::TransportFailed { error })
            | (JobStage::ReportingFailure, JobInput::TransportFailed { error })
            | (JobStage::Delivering, JobInput::TransportFailed { error }) => self.fail(error),
            _ => Vec::new(),
        }
    }
}

// ---------------------------------------------------------------------------
// Laws of the job flow.
// ---------------------------------------------------------------------------
pub open spec fn is_payment_stage(s: JobStage) -> bool {
    s == JobStage::RequestingPayment || s == JobStage::AnnouncingPrice || s == JobStage::Polling
        || s == JobStage::Sleeping || s == JobStage::ReportingPaymentError || s
        == JobStage::ReportingTimeout
}

pub open spec fn is_work_stage(s: JobStage) -> bool {
    s == JobStage::StartingWork || s == JobStage::Routing || s == JobStage::Executing || s
        == JobStage::ReportingFailure || s == JobStage::Delivering || s == JobStage::ReadingBalance
}

/// What holds of every state a job reaches: in free mode no payment is
/// handled and nothing is owed; otherwise the fee is the protocol fee and,
/// once work has started, the provider has been paid the price less the fee.
pub open spec fn flow_inv(f: FlowView) -> bool {
    &&& f.fee <= f.price
    &&& f.free_mode ==> f.amount is None && !is_payment_stage(f.stage)
    &&& !f.free_mode ==> f.price <= MAX_FEE_PRICE && f.fee == protocol_fee_of(f.price as int)
    &&& !f.free_mode && is_work_stage(f.stage) ==> f.amount == Some((f.price - f.fee) as u64)
}

/// Every step keeps the flow's invariant.
pub proof fn law_flow_inv_kept(f: FlowView, i: InputView)
    requires
        flow_inv(f),
    ensures
        flow_inv(flow_step(f, i).0),
{
}

/// A result is delivered with no amount in free mode, and otherwise with the
/// price less the protocol fee.
pub proof fn law_delivery_amount(f: FlowView, i: InputView, k: int)
    requires
        flow_inv(f),
        0 <= k < flow_step(f, i).1.len(),
        flow_step(f, i).1[k] is DeliverResult,
    ensures
        flow_step(f, i).1[k] == (ActionView::DeliverResult {
            amount: if f.free_mode {
                None
            } else {
                Some(provider_net_of(f.price as int) as u64)
            },
        }),
{
}

/// Paid work starts only when a payment lookup reports the payment settled.
pub proof fn law_work_starts_after_payment(f: FlowView, i: InputView)
    requires
        flow_inv(f),
        !f.free_mode,
        !is_work_stage(f.stage),
        is_work_stage(flow_step(f, i).0.stage),
    ensures
        f.stage == JobStage::Polling,
        i matches InputView::PaymentChecked { settled, .. } && settled,
{
}

/// Once a job is done, nothing changes it.
pub proof fn law_done_is_final(f: FlowView, i: InputView)
    requires
        f.stage == JobStage::Done,
    ensures
        flow_step(f, i) == (f, Seq::<ActionView>::empty()),
{
}

/// A wait for payment never ends after the payment deadline, and a lookup
/// at or past the deadline without payment times the job out.
pub proof fn law_polling_respects_deadline(f: FlowView, settled: bool, now_ms: u64)
    requires
        f.stage == JobStage::Polling,
    ensures
        ({
            let (g, acts) = flow_step(f, InputView::PaymentChecked { settled, now_ms });
            &&& acts.len() > 0
            &&& (acts[0] matches ActionView::SleepUntil { at_ms } ==> now_ms < at_ms <= f.deadline_ms)
            &&& (!settled && now_ms >= f.deadline_ms ==> g.stage == JobStage::ReportingTimeout)
        }),
{
}

/// Only the steps that end a job ask to finish it, and the step that ends it
/// in error also tells the dashboard which error.
pub proof fn law_finish_ends_job(f: FlowView, i: InputView)
    requires
        f.stage != JobStage::Done,
    ensures
        ({
            let (g, acts) = flow_step(f, i);
            (exists|k: int| 0 <= k < acts.len() && acts[k] is Finish) <==> g.stage == JobStage::Done
        }),
{
    let (g, acts) = flow_step(f, i);
    if g.stage == JobStage::Done {
        assert(acts[acts.len() - 1] is Finish);
    }
}

/// The only step that finishes a job without an error is the last one of a
/// job whose result was delivered: reading the wallet balance.
pub proof fn law_success_only_after_delivery(f: FlowView, i: InputView, k: int)
    requires
        0 <= k < flow_step(f, i).1.len(),
        flow_step(f, i).1[k] == (ActionView::Finish { error: None }),
    ensures
        f.stage == JobStage::ReadingBalance,
        i is BalanceRead,
{
}

/// A skill that fails is reported to the dashboard with its error, and the
/// customer is told `processing failed: <error>`; the job is not over yet.
pub proof fn law_skill_failure_reported(f: FlowView, e: Seq<char>)
    requires
        f.stage == JobStage::Executing,
    ensures
        flow_step(f, InputView::SkillFinished { outcome: Err(e) }) == (
            FlowView { stage: JobStage::ReportingFailure, pending_error: e, ..f },
            seq![
                ActionView::Notify(AppEventView::JobFailed { job_id: f.job_id, error: e }),
                ActionView::SendFeedback(FeedbackView::Error("processing failed: "@ + e)),
            ],
        ),
{
}

/// Once a failure is being reported (a failed skill, a payment timeout, a
/// failed payment request), the job ends failed: when the feedback is sent
/// it finishes with the error being reported, when sending fails it finishes
/// with the transport's error, and nothing else moves it. So a job whose
/// skill failed never finishes as a success.
pub proof fn law_reported_failure_finishes_failed(f: FlowView, i: InputView)
    requires
        f.stage == JobStage::ReportingFailure || f.stage == JobStage::ReportingTimeout || f.stage
            == JobStage::ReportingPaymentError,
    ensures
        ({
            let (g, acts) = flow_step(f, i);
            match i {
                InputView::FeedbackSent { .. } => g.stage == JobStage::Done && acts == seq![
                    ActionView::Notify(
                        AppEventView::JobFailed { job_id: f.job_id, error: f.pending_error },
                    ),
                    ActionView::Finish { error: Some(f.pending_error) },
                ],
                InputView::TransportFailed { error } => g.stage == JobStage::Done && acts == seq![
                    ActionView::Notify(AppEventView::JobFailed { job_id: f.job_id, error }),
                    ActionView::Finish { error: Some(error) },
                ],
                _ => g == f && acts.len() == 0,
            }
        }),
        forall|k: int|
            0 <= k < flow_step(f, i).1.len() ==> flow_step(f, i).1[k] != (ActionView::Finish {
                error: None,
            }),
{
}

/// The state after a run of inputs, one step after another, and every action
/// they called for, in order.
pub open spec fn flow_run(f: FlowView, inputs: Seq<InputView>) -> (FlowView, Seq<ActionView>)
    decreases inputs.len(),
{
    if inputs.len() == 0 {
        (f, Seq::empty())
    } else {
        let (g, acts) = flow_step(f, inputs[0]);
        let (h, rest) = flow_run(g, inputs.drop_first());
        (h, acts + rest)
    }
}

/// A job whose skill failed with `e` never finishes as a success, whatever
/// comes after: every `Finish` that any later run of inputs calls for
/// carries an error, and it is `e` itself unless sending the failure
/// feedback failed.
pub proof fn law_failed_skill_never_succeeds(f: FlowView, e: Seq<char>, later: Seq<InputView>)
    requires
        f.stage == JobStage::Executing,
    ensures
        ({
            let acts = flow_run(f, seq![InputView::SkillFinished { outcome: Err(e) }] + later).1;
            forall|k: int|
                0 <= k < acts.len() && #[trigger] acts[k] is Finish ==> acts[k]->error is Some
                    && (acts[k]->error != Some(e) ==> exists|j: int|
                    0 <= j < later.len() && #[trigger] later[j] is TransportFailed)
        }),
{
    let first = InputView::SkillFinished { outcome: Err(e) };
    let ins = seq![first] + later;
    assert(ins[0] == first);
    assert(ins.drop_first() =~= later);
    let g = flow_step(f, first).0;
    assert(g.stage == JobStage::ReportingFailure && g.pending_error == e);
    lemma_reporting_run_fails(g, later);
}

/// From a failure being reported, any run of inputs only finishes the job
/// with an error: the reported one, or the transport's where one comes.
proof fn lemma_reporting_run_fails(g: FlowView, later: Seq<InputView>)
    requires
        g.stage == JobStage::ReportingFailure || g.stage == JobStage::Done,
    ensures
        ({
            let acts = flow_run(g, later).1;
            forall|k: int|
                0 <= k < acts.len() && #[trigger] acts[k] is Finish ==> g.stage
                    == JobStage::ReportingFailure && acts[k]->error is Some && (acts[k]->error
                    != Some(g.pending_error) ==> exists|j: int|
                    0 <= j < later.len() && #[trigger] later[j] is TransportFailed)
        }),
    decreases later.len(),
{
    if later.len() > 0 {
        let (h, acts) = flow_step(g, later[0]);
        let rest = later.drop_first();
        lemma_reporting_run_fails(h, rest);
        let all = flow_run(g, later).1;
        assert(all == acts + flow_run(h, rest).1);
        assert forall|k: int| 0 <= k < all.len() && #[trigger] all[k] is Finish implies g.stage
            == JobStage::ReportingFailure && all[k]->error is Some && (all[k]->error != Some(
            g.pending_error,
        ) ==> exists|j: int| 0 <= j < later.len() && #[trigger] later[j] is TransportFailed) by {
            if k < acts.len() {
                assert(all[k] == acts[k]);
                if all[k]->error != Some(g.pending_error) {
                    assert(later[0] is TransportFailed);
                }
            } else {
                let r = flow_run(h, rest).1;
                assert(all[k] == r[k - acts.len()]);
                if all[k]->error != Some(h.pending_error) {
                    let j = choose|j: int| 0 <= j < rest.len() && #[trigger] rest[j] is TransportFailed;
                    assert(later[j + 1] == rest[j]);
                }
            }
        }
    }
}

/// A paid job starts by asking for a payment request for its price with the
/// protocol fee, described as `elisym job <id>`; a free job goes straight to
/// work; a job without payments configured fails.
pub proof fn law_job_start(f: FlowView, payments: bool, solana: bool)
    requires
        f.stage == JobStage::Start,
    ensures
        ({
            let (g, acts) = flow_step(f, InputView::Begin { payments, solana });
            &&& f.free_mode ==> g.stage == JobStage::StartingWork && acts == seq![
                ActionView::SendFeedback(FeedbackView::Processing),
            ]
            &&& !f.free_mode && payments && solana ==> g.stage == JobStage::RequestingPayment
                && acts == seq![
                ActionView::CreatePaymentRequest {
                    price: f.price,
                    fee: f.fee,
                    description: "elisym job "@ + f.job_id,
                    timeout_secs: f.timeout_secs,
                },
            ]
            &&& !f.free_mode && !payments ==> g.stage == JobStage::Done && acts == seq![
                ActionView::Notify(
                    AppEventView::JobFailed {
                        job_id: f.job_id,
                        error: "payments not configured"@,
                    },
                ),
                ActionView::Finish { error: Some("payments not configured"@) },
            ]
            &&& !f.free_mode && payments && !solana ==> g.stage == JobStage::Done && acts == seq![
                ActionView::Notify(
                    AppEventView::JobFailed {
                        job_id: f.job_id,
                        error: "solana payments not configured"@,
                    },
                ),
                ActionView::Finish { error: Some("solana payments not configured"@) },
            ]
        }),
{
}

/// A created payment request is shown with the price and fee, and the
/// customer is asked for the full price.
pub proof fn law_price_announced(f: FlowView)
    requires
        f.stage == JobStage::RequestingPayment,
    ensures
        flow_step(f, InputView::PaymentRequestCreated).1 == seq![
            ActionView::Notify(
                AppEventView::PaymentRequested { job_id: f.job_id, price: f.price, fee: f.fee },
            ),
            ActionView::SendFeedback(FeedbackView::PaymentRequired { amount: f.price }),
        ],
{
}

/// A settled payment is shown with the provider's net amount (price less
/// fee) and work starts; an unsettled lookup at or past the deadline times
/// the job out with `payment timeout`.
pub proof fn law_payment_outcome(f: FlowView, settled: bool, now_ms: u64)
    requires
        f.stage == JobStage::Polling,
        f.fee <= f.price,
    ensures
        ({
            let (g, acts) = flow_step(f, InputView::PaymentChecked { settled, now_ms });
            &&& settled ==> g.stage == JobStage::StartingWork && g.amount == Some(
                (f.price - f.fee) as u64,
            ) && acts == seq![
                ActionView::Notify(
                    AppEventView::PaymentReceived {
                        job_id: f.job_id,
                        net_amount: (f.price - f.fee) as u64,
                    },
                ),
                ActionView::SendFeedback(FeedbackView::Processing),
            ]
            &&& !settled && now_ms >= f.deadline_ms ==> g.stage == JobStage::ReportingTimeout
                && g.pending_error == "payment timeout"@ && acts == seq![
                ActionView::Notify(AppEventView::PaymentTimeout { job_id: f.job_id }),
                ActionView::SendFeedback(FeedbackView::Error("payment timeout"@)),
            ]
        }),
{
}

/// A routed skill is shown and run; no skill fails the job; a skill's output
/// is delivered with the amount paid; a delivered result is shown with its
/// length, then the wallet balance is read.
pub proof fn law_work_steps(f: FlowView, name: Option<Seq<char>>, len: usize)
    ensures
        f.stage == JobStage::Routing ==> flow_step(f, InputView::SkillRouted { skill_name: name })
            == match name {
            Some(n) => (
                FlowView { stage: JobStage::Executing, ..f },
                seq![
                    ActionView::Notify(AppEventView::SkillStarted { job_id: f.job_id, skill_name: n }),
                    ActionView::ExecuteSkill,
                ],
            ),
            None => (
                FlowView { stage: JobStage::Done, ..f },
                seq![
                    ActionView::Notify(
                        AppEventView::JobFailed {
                            job_id: f.job_id,
                            error: "no skill available to handle this job"@,
                        },
                    ),
                    ActionView::Finish { error: Some("no skill available to handle this job"@) },
                ],
            ),
        },
        f.stage == JobStage::Executing ==> flow_step(
            f,
            InputView::SkillFinished { outcome: Ok(len) },
        ) == (
            FlowView { stage: JobStage::Delivering, result_len: len, ..f },
            seq![ActionView::DeliverResult { amount: f.amount }],
        ),
        f.stage == JobStage::Delivering ==> flow_step(f, InputView::Delivered).1 == seq![
            ActionView::Notify(
                AppEventView::JobCompleted { job_id: f.job_id, result_len: f.result_len },
            ),
            ActionView::ReadBalance,
        ],
{
}

} // verus!
