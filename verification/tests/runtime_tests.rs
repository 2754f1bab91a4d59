use elisym_cli::runtime::{
    protocol_fee, provider_net, JobAction, JobFeedback, JobFlow, JobInput, JobStage,
    RuntimeConfig, PROTOCOL_FEE_BPS,
};
use elisym_cli::tui::AppEvent;

#[test]
fn test_fee_math() {
    // 0.01 SOL = 10_000_000 lamports, 3% fee = 300_000 lamports
    let price: u64 = 10_000_000;
    let fee = protocol_fee(price);
    assert_eq!(fee, 300_000);
    assert_eq!((price * PROTOCOL_FEE_BPS).div_ceil(10_000), fee);
    assert_eq!(price.saturating_sub(fee), 9_700_000);
    assert_eq!(provider_net(price), 9_700_000);
}

#[test]
fn test_fee_math_rounding() {
    // Test rounding up with div_ceil
    let price: u64 = 10_000_001;
    let fee = protocol_fee(price);
    // 10_000_001 * 300 = 3_000_000_300, div_ceil(10_000) = 300_001
    assert_eq!(fee, 300_001);
    assert_eq!((price * PROTOCOL_FEE_BPS).div_ceil(10_000), fee);
}

#[test]
fn fee_splits_price_exactly() {
    for price in [0u64, 1, 33, 34, 9_999, 10_000, 123_456_789, 61_489_146_912_365_172] {
        let fee = protocol_fee(price);
        assert!(fee <= price);
        assert_eq!(fee + provider_net(price), price);
        assert_eq!(fee, (price * PROTOCOL_FEE_BPS).div_ceil(10_000));
    }
}

#[test]
fn runtime_config_defaults() {
    let c = RuntimeConfig::default();
    assert!(!c.free_mode);
    assert_eq!(c.job_price, 10_000_000);
    assert_eq!(c.payment_timeout_secs, 120);
    assert_eq!(c.max_concurrent_jobs, 10);
}

fn paid_config() -> RuntimeConfig {
    RuntimeConfig { free_mode: false, job_price: 10_000_000, payment_timeout_secs: 10, max_concurrent_jobs: 1 }
}

#[test]
fn paid_job_is_delivered_with_net_amount() {
    let mut flow = JobFlow::new("job-1".to_string(), &paid_config());
    let acts = flow.step(JobInput::Begin { payments: true, solana: true });
    match &acts[..] {
        [JobAction::CreatePaymentRequest { price, fee, description, timeout_secs }] => {
            assert_eq!(*price, 10_000_000);
            assert_eq!(*fee, 300_000);
            assert_eq!(description, "elisym job job-1");
            assert_eq!(*timeout_secs, 10);
        }
        _ => panic!("unexpected actions"),
    }
    let acts = flow.step(JobInput::PaymentRequestCreated);
    assert!(matches!(&acts[0], JobAction::Notify(AppEvent::PaymentRequested { price: 10_000_000, fee: 300_000, .. })));
    assert!(matches!(&acts[1], JobAction::SendFeedback(JobFeedback::PaymentRequired { amount: 10_000_000 })));
    let acts = flow.step(JobInput::FeedbackSent { now_ms: 1_000 });
    assert!(matches!(&acts[..], [JobAction::LookupPayment]));
    assert_eq!(flow.deadline_ms, 11_000);
    let acts = flow.step(JobInput::PaymentChecked { settled: false, now_ms: 2_000 });
    assert!(matches!(&acts[..], [JobAction::SleepUntil { at_ms: 4_000 }]));
    let acts = flow.step(JobInput::Woke);
    assert!(matches!(&acts[..], [JobAction::LookupPayment]));
    let acts = flow.step(JobInput::PaymentChecked { settled: true, now_ms: 4_000 });
    assert!(matches!(&acts[0], JobAction::Notify(AppEvent::PaymentReceived { net_amount: 9_700_000, .. })));
    assert!(matches!(&acts[1], JobAction::SendFeedback(JobFeedback::Processing)));
    let acts = flow.step(JobInput::FeedbackSent { now_ms: 4_100 });
    assert!(matches!(&acts[..], [JobAction::RouteSkill]));
    let acts = flow.step(JobInput::SkillRouted { skill_name: Some("summarize".to_string()) });
    assert!(matches!(&acts[1], JobAction::ExecuteSkill));
    let acts = flow.step(JobInput::SkillFinished { outcome: Ok(42) });
    assert!(matches!(&acts[..], [JobAction::DeliverResult { amount: Some(9_700_000) }]));
    let acts = flow.step(JobInput::Delivered);
    assert!(matches!(&acts[0], JobAction::Notify(AppEvent::JobCompleted { result_len: 42, .. })));
    let acts = flow.step(JobInput::BalanceRead { balance: Some(5) });
    assert!(matches!(&acts[0], JobAction::Notify(AppEvent::WalletBalance(5))));
    assert!(matches!(&acts[1], JobAction::Finish { error: None }));
    assert!(flow.stage == JobStage::Done);
    // Done is final.
    assert!(flow.step(JobInput::Delivered).is_empty());
}

#[test]
fn unpaid_job_times_out() {
    let mut flow = JobFlow::new("job-2".to_string(), &paid_config());
    flow.step(JobInput::Begin { payments: true, solana: true });
    flow.step(JobInput::PaymentRequestCreated);
    flow.step(JobInput::FeedbackSent { now_ms: 0 });
    let acts = flow.step(JobInput::PaymentChecked { settled: false, now_ms: 9_000 });
    assert!(matches!(&acts[..], [JobAction::SleepUntil { at_ms: 10_000 }]));
    flow.step(JobInput::Woke);
    let acts = flow.step(JobInput::PaymentChecked { settled: false, now_ms: 10_000 });
    assert!(matches!(&acts[0], JobAction::Notify(AppEvent::PaymentTimeout { .. })));
    match &acts[1] {
        JobAction::SendFeedback(JobFeedback::Error(e)) => assert_eq!(e, "payment timeout"),
        _ => panic!("expected error feedback"),
    }
    let acts = flow.step(JobInput::FeedbackSent { now_ms: 10_001 });
    match &acts[..] {
        [JobAction::Notify(AppEvent::JobFailed { error, .. }), JobAction::Finish { error: Some(e2) }] => {
            assert_eq!(error, "payment timeout");
            assert_eq!(e2, "payment timeout");
        }
        _ => panic!("expected failure"),
    }
}

#[test]
fn free_job_skips_payment() {
    let config = RuntimeConfig { free_mode: true, job_price: u64::MAX, payment_timeout_secs: 10, max_concurrent_jobs: 1 };
    let mut flow = JobFlow::new("free".to_string(), &config);
    let acts = flow.step(JobInput::Begin { payments: false, solana: false });
    assert!(matches!(&acts[..], [JobAction::SendFeedback(JobFeedback::Processing)]));
    flow.step(JobInput::FeedbackSent { now_ms: 0 });
    flow.step(JobInput::SkillRouted { skill_name: Some("s".to_string()) });
    let acts = flow.step(JobInput::SkillFinished { outcome: Ok(1) });
    assert!(matches!(&acts[..], [JobAction::DeliverResult { amount: None }]));
}

#[test]
fn missing_payments_and_skills_fail_the_job() {
    let mut flow = JobFlow::new("j".to_string(), &paid_config());
    let acts = flow.step(JobInput::Begin { payments: false, solana: true });
    match &acts[1] {
        JobAction::Finish { error: Some(e) } => assert_eq!(e, "payments not configured"),
        _ => panic!(),
    }
    let mut flow = JobFlow::new("j".to_string(), &paid_config());
    let acts = flow.step(JobInput::Begin { payments: true, solana: false });
    match &acts[1] {
        JobAction::Finish { error: Some(e) } => assert_eq!(e, "solana payments not configured"),
        _ => panic!(),
    }
    let config = RuntimeConfig { free_mode: true, ..paid_config() };
    let mut flow = JobFlow::new("j".to_string(), &config);
    flow.step(JobInput::Begin { payments: true, solana: true });
    flow.step(JobInput::FeedbackSent { now_ms: 0 });
    let acts = flow.step(JobInput::SkillRouted { skill_name: None });
    match &acts[1] {
        JobAction::Finish { error: Some(e) } => assert_eq!(e, "no skill available to handle this job"),
        _ => panic!(),
    }
}

#[test]
fn failed_skill_and_payment_request_report_errors() {
    let config = RuntimeConfig { free_mode: true, ..paid_config() };
    let mut flow = JobFlow::new("j".to_string(), &config);
    flow.step(JobInput::Begin { payments: true, solana: true });
    flow.step(JobInput::FeedbackSent { now_ms: 0 });
    flow.step(JobInput::SkillRouted { skill_name: Some("s".to_string()) });
    let acts = flow.step(JobInput::SkillFinished { outcome: Err("boom".to_string()) });
    match &acts[1] {
        JobAction::SendFeedback(JobFeedback::Error(e)) => assert_eq!(e, "processing failed: boom"),
        _ => panic!(),
    }
    let acts = flow.step(JobInput::TransportFailed { error: "relay down".to_string() });
    match &acts[1] {
        JobAction::Finish { error: Some(e) } => assert_eq!(e, "relay down"),
        _ => panic!(),
    }

    let mut flow = JobFlow::new("j".to_string(), &paid_config());
    flow.step(JobInput::Begin { payments: true, solana: true });
    let acts = flow.step(JobInput::PaymentRequestFailed { error: "rpc".to_string() });
    match &acts[0] {
        JobAction::SendFeedback(JobFeedback::Error(e)) => assert_eq!(e, "payment error: rpc"),
        _ => panic!(),
    }
    let acts = flow.step(JobInput::FeedbackSent { now_ms: 0 });
    match &acts[1] {
        JobAction::Finish { error: Some(e) } => assert_eq!(e, "rpc"),
        _ => panic!(),
    }
}
