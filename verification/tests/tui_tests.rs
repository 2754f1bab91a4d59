use elisym_cli::tui::ui::{
    detail_duration, detail_price, elapsed_secs, ellipsized, header_price, icon_tint,
    inner_height, input_preview, jobs_title, log_scroll, one_line, sol_cell, status_cell,
    status_detail_tint, status_label, table_time, Tint,
};
use elisym_cli::tui::{App, AppEvent, Focus, JobStatus, Key, KeyOutcome, Screen, SoundCue, MAX_GLOBAL_LOGS};

const JOB: &str = "job0123456789abcdef";
const CUSTOMER: &str = "cust0123456789abcdef";

fn app() -> App {
    App::new("bot".to_string(), "summarize".to_string(), 10_000_000, false, 0, "devnet".to_string(), true)
}

fn received(id: &str) -> AppEvent {
    AppEvent::JobReceived { job_id: id.to_string(), customer_id: CUSTOMER.to_string(), input: "hello".to_string() }
}

#[test]
fn a_new_dashboard_is_empty() {
    let a = app();
    assert!(a.screen == Screen::Main);
    assert!(a.focus == Focus::Table);
    assert!(a.jobs.is_empty());
    assert!(a.global_logs.is_empty());
    assert_eq!(a.selected, None);
    assert!(a.table_focused());
    assert_eq!(a.sound_label(), "sound:on");
}

#[test]
fn a_job_goes_through_its_events() {
    let mut a = app();
    assert_eq!(a.update_at(received(JOB), 1_000, "10:00:00".to_string()), None);
    assert_eq!(a.jobs.len(), 1);
    assert_eq!(a.selected, Some(0));
    assert_eq!(a.global_logs[0].message, "New job job012345678... from cust01234567...");
    assert_eq!(a.global_logs[0].icon, "▶");
    assert_eq!(a.global_logs[0].time, "10:00:00");
    assert_eq!(a.jobs[0].logs[0].message, "Job received");
    assert!(matches!(a.jobs[0].status, JobStatus::PaymentPending));

    a.update_at(AppEvent::PaymentRequested { job_id: JOB.to_string(), price: 10_000_000, fee: 300_000 }, 2_000, "t".to_string());
    assert_eq!(a.jobs[0].price, Some(10_000_000));
    assert_eq!(a.jobs[0].fee, Some(300_000));
    assert_eq!(a.jobs[0].logs[1].message, "Requesting payment: 0.01 SOL");
    assert_eq!(a.global_logs[1].message, "Requesting payment: 0.01 SOL [job012345678...]");

    let cue = a.update_at(AppEvent::PaymentReceived { job_id: JOB.to_string(), net_amount: 9_700_000 }, 3_000, "t".to_string());
    assert_eq!(cue, Some(SoundCue::PaymentReceived));
    assert!(matches!(a.jobs[0].status, JobStatus::Processing));
    assert_eq!(a.jobs[0].net_amount, Some(9_700_000));
    assert_eq!(a.jobs[0].logs[2].message, "Payment received (0.0097 SOL net)");

    a.update_at(AppEvent::SkillStarted { job_id: JOB.to_string(), skill_name: "summarize".to_string() }, 3_500, "t".to_string());
    assert_eq!(a.jobs[0].skill_name.as_deref(), Some("summarize"));
    a.update_at(AppEvent::LlmRound { job_id: JOB.to_string(), round: 1, max_rounds: 10 }, 3_600, "t".to_string());
    assert_eq!(a.jobs[0].logs.last().unwrap().message, "LLM round 1/10");
    a.update_at(AppEvent::ToolCompleted { job_id: JOB.to_string(), tool_name: "web".to_string(), output_len: 42 }, 3_700, "t".to_string());
    assert_eq!(a.jobs[0].logs.last().unwrap().message, "Tool web done (42 chars)");
    assert_eq!(a.jobs[0].logs.last().unwrap().icon, "←");

    a.update_at(AppEvent::JobCompleted { job_id: JOB.to_string(), result_len: 1234 }, 76_000, "t".to_string());
    assert!(matches!(a.jobs[0].status, JobStatus::Completed));
    assert_eq!(a.jobs[0].completed_at, Some(76_000));
    assert_eq!(a.jobs[0].logs.last().unwrap().message, "Result delivered (1234 chars)");
    assert_eq!(a.global_logs.back().unwrap().message, "Job job012345678... done (1234 chars)");
    assert_eq!(elapsed_secs(a.jobs[0].started_at, a.jobs[0].completed_at, 999_999), 75);
}

#[test]
fn events_for_unknown_jobs_only_log() {
    let mut a = app();
    a.update_at(received(JOB), 0, "t".to_string());
    a.update_at(AppEvent::JobFailed { job_id: "other".to_string(), error: "boom".to_string() }, 5, "t".to_string());
    assert!(matches!(a.jobs[0].status, JobStatus::PaymentPending));
    assert_eq!(a.global_logs.back().unwrap().message, "Job other... failed: boom");
    a.update_at(AppEvent::PaymentTimeout { job_id: JOB.to_string() }, 9, "t".to_string());
    match &a.jobs[0].status {
        JobStatus::Failed(e) => assert_eq!(e, "payment timeout"),
        _ => panic!("expected a failed job"),
    }
    a.update_at(AppEvent::WalletBalance(77), 10, "t".to_string());
    assert_eq!(a.wallet_balance, 77);
    a.update_at(AppEvent::Ping { from: "abcdefghijklmnop".to_string() }, 11, "t".to_string());
    assert_eq!(a.global_logs.back().unwrap().message, "Ping from abcdefghijkl... — pong sent");
    assert_eq!(a.global_logs.back().unwrap().icon, "↔");
}

#[test]
fn the_global_log_keeps_the_latest_lines() {
    let mut a = app();
    for i in 0..(MAX_GLOBAL_LOGS + 5) {
        a.update_at(AppEvent::Ping { from: format!("peer{}", i) }, 0, "t".to_string());
    }
    assert_eq!(a.global_logs.len(), MAX_GLOBAL_LOGS);
    assert_eq!(a.global_logs[0].message, "Ping from peer5... — pong sent");
}

#[test]
fn selection_wraps_around() {
    let mut a = app();
    a.select_next();
    assert_eq!(a.selected, None);
    a.update_at(received("a"), 0, "t".to_string());
    a.update_at(received("b"), 0, "t".to_string());
    a.update_at(received("c"), 0, "t".to_string());
    assert_eq!(a.selected, Some(0));
    a.select_prev();
    assert_eq!(a.selected, Some(2));
    a.select_next();
    assert_eq!(a.selected, Some(0));
    a.select_next();
    assert_eq!(a.selected, Some(1));
    a.select_prev();
    assert_eq!(a.selected, Some(0));
}

#[test]
fn sound_toggles_and_is_logged() {
    let mut a = app();
    assert!(!a.toggle_sound_at("12:00:00".to_string()));
    assert_eq!(a.global_logs.back().unwrap().message, "Sound OFF");
    assert_eq!(a.sound_label(), "sound:off");
    a.update_at(received(JOB), 0, "t".to_string());
    assert_eq!(a.update_at(AppEvent::PaymentReceived { job_id: JOB.to_string(), net_amount: 1 }, 0, "t".to_string()), None);
    assert!(a.toggle_sound_at("12:00:01".to_string()));
    assert_eq!(a.global_logs.back().unwrap().message, "Sound ON");
    assert_eq!(a.global_logs.back().unwrap().icon, "♪");
}

#[test]
fn table_cells() {
    assert_eq!(table_time(5), "   5s");
    assert_eq!(table_time(59), "  59s");
    assert_eq!(table_time(75), " 1m15s");
    assert_eq!(table_time(3605), "60m05s");
    assert_eq!(detail_duration(5), "5s");
    assert_eq!(detail_duration(75), "1m15s");
    assert_eq!(sol_cell(Some(10_000_000)), "   0.01");
    assert_eq!(sol_cell(None), "     --");
    assert_eq!(header_price(true, 5), "FREE");
    assert_eq!(header_price(false, 1_500_000_000), "1.5 SOL");
    assert_eq!(detail_price(Some(10_000_000), Some(9_700_000)), "0.01 SOL (net: 0.0097 SOL)");
    assert_eq!(detail_price(None, None), "—");
    assert_eq!(elapsed_secs(5_000, None, 4_000), 0);
    assert_eq!(elapsed_secs(1_000, None, 3_999), 2);
}

#[test]
fn text_cells() {
    assert_eq!(ellipsized("short", 10), "short");
    assert_eq!(ellipsized("abcdefghij", 4), "abcd…");
    assert_eq!(one_line("a\nb\nc"), "a b c");
    let long = "x".repeat(70);
    assert_eq!(input_preview(&long), format!("{}…", "x".repeat(60)));
    assert_eq!(input_preview("two\nlines"), "two lines");
}

#[test]
fn statuses_and_tints() {
    assert_eq!(status_cell(&JobStatus::PaymentPending), ("$ Awaiting", Tint::Yellow));
    assert_eq!(status_cell(&JobStatus::Failed("x".to_string())), ("✗ Failed", Tint::Red));
    assert_eq!(status_label(&JobStatus::PaymentPending), "$ Payment");
    assert_eq!(status_label(&JobStatus::Completed), "✓ Done");
    assert_eq!(status_detail_tint(&JobStatus::Processing), Tint::Cyan);
    assert_eq!(icon_tint("▶"), Tint::Cyan);
    assert_eq!(icon_tint("$"), Tint::Yellow);
    assert_eq!(icon_tint("✓"), Tint::Green);
    assert_eq!(icon_tint("✗"), Tint::Red);
    assert_eq!(icon_tint("↔"), Tint::DarkGray);
    assert_eq!(icon_tint("♪"), Tint::Default);
}

#[test]
fn job_table_title_counts_statuses() {
    let mut a = app();
    assert_eq!(jobs_title(&a.jobs), " Jobs ");
    a.update_at(received("a"), 0, "t".to_string());
    a.update_at(received("b"), 0, "t".to_string());
    a.update_at(received("c"), 0, "t".to_string());
    a.update_at(AppEvent::SkillStarted { job_id: "a".to_string(), skill_name: "s".to_string() }, 0, "t".to_string());
    a.update_at(AppEvent::JobCompleted { job_id: "b".to_string(), result_len: 1 }, 0, "t".to_string());
    assert_eq!(jobs_title(&a.jobs), " Jobs (3) — 1 running, 1 done, 0 failed ");
}

#[test]
fn log_scrolling() {
    assert_eq!(log_scroll(0, 100, 20, false), 80);
    assert_eq!(log_scroll(5, 100, 20, true), 5);
    assert_eq!(log_scroll(90, 100, 20, true), 80);
    assert_eq!(log_scroll(3, 10, 20, true), 0);
    assert_eq!(inner_height(10), 8);
    assert_eq!(inner_height(1), 0);
}

#[test]
fn detail_opens_only_for_existing_jobs() {
    let mut a = app();
    a.update_at(received("a"), 0, "t".to_string());
    assert!(a.open_detail(0));
    assert!(a.screen == Screen::JobDetail(0));
    assert!(!a.open_detail(1));
    assert!(a.screen == Screen::Main);
}

#[test]
fn keys_drive_the_dashboard() {
    let mut a = app();
    a.update_at(received("a"), 0, "t".to_string());
    a.update_at(received("b"), 0, "t".to_string());
    assert_eq!(a.handle_key_at(Key::Down, "t".to_string()), KeyOutcome::Continue);
    assert_eq!(a.selected, Some(1));
    a.handle_key_at(Key::Enter, "t".to_string());
    assert!(a.screen == Screen::JobDetail(1));
    a.handle_key_at(Key::Down, "t".to_string());
    assert_eq!(a.detail_scroll, 1);
    a.handle_key_at(Key::Esc, "t".to_string());
    assert!(a.screen == Screen::Main);
    a.handle_key_at(Key::Tab, "t".to_string());
    assert!(a.focus == Focus::Log);
    a.handle_key_at(Key::Up, "t".to_string());
    assert_eq!(a.log_scroll, 0);
    assert_eq!(a.handle_key_at(Key::Char('s'), "t".to_string()), KeyOutcome::SoundToggled(false));
    assert_eq!(a.handle_key_at(Key::Char('q'), "t".to_string()), KeyOutcome::Quit);
}

#[test]
fn the_monotonic_clock_does_not_go_back() {
    let a = app();
    let t1 = a.now_ms();
    let t2 = a.now_ms();
    assert!(0 <= t1 && t1 <= t2);
}

#[test]
fn add_global_log_drops_the_oldest_when_full() {
    let mut a = app();
    for i in 0..MAX_GLOBAL_LOGS {
        a.add_global_log("$", format!("line {}", i), "t".to_string());
    }
    assert_eq!(a.global_logs.len(), MAX_GLOBAL_LOGS);
    a.add_global_log("✓", "last".to_string(), "12:00:00".to_string());
    assert_eq!(a.global_logs.len(), MAX_GLOBAL_LOGS);
    assert_eq!(a.global_logs[0].message, "line 1");
    let back = a.global_logs.back().unwrap();
    assert_eq!((back.icon, back.message.as_str(), back.time.as_str()), ("✓", "last", "12:00:00"));
}
