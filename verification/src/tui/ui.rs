//! What the dashboard shows, as text and colour names; drawing it on the
//! terminal is left to the caller.
use vstd::prelude::*;

use super::{App, AppView, Focus, JobEntry, JobStatus, JobView, StatusView};
use crate::util::{
    byte_prefix, byte_prefix_of, decimal, decimal_string, format_sol_compact, pad_left,
    pad_left_string, prefix_sliceable, push_decimal, sol_compact, utf8_len, utf8_length,
};

verus! {

/// The colours the dashboard uses.
#[derive(Debug, Clone, Copy, PartialEq, Eq, Structural)]
pub enum Tint {
    Default,
    Cyan,
    Yellow,
    Green,
    Red,
    DarkGray,
}

/// The colour of a log line's icon.
pub fn icon_tint(icon: &str) -> (r: Tint)
    ensures
        r == (if icon@ == "▶"@ || icon@ == "⚙"@ {
            Tint::Cyan
        } else if icon@ == "$"@ {
            Tint::Yellow
        } else if icon@ == "✓"@ {
            Tint::Green
        } else if icon@ == "✗"@ {
            Tint::Red
        } else if icon@ == "→"@ || icon@ == "←"@ || icon@ == "↔"@ {
            Tint::DarkGray
        } else {
            Tint::Default
        }),
{
    let s = String::from_str(icon);
    if s == String::from_str("▶") || s == String::from_str("⚙") {
        Tint::Cyan
    } else if s == String::from_str("$") {
        Tint::Yellow
    } else if s == String::from_str("✓") {
        Tint::Green
    } else if s == String::from_str("✗") {
        Tint::Red
    } else if s == String::from_str("→") || s == String::from_str("←") || s == String::from_str(
        "↔",
    ) {
        Tint::DarkGray
    } else {
        Tint::Default
    }
}

/// The text and colour of a job's status in the job table.
pub fn status_cell(status: &JobStatus) -> (r: (&'static str, Tint))
    ensures
        match status@ {
            StatusView::PaymentPending => r.0@ == "$ Awaiting"@ && r.1 == Tint::Yellow,
            StatusView::Processing => r.0@ == "⚙ Running"@ && r.1 == Tint::Cyan,
            StatusView::Completed => r.0@ == "✓ Done"@ && r.1 == Tint::Green,
            StatusView::Failed(_) => r.0@ == "✗ Failed"@ && r.1 == Tint::Red,
        },
{
    match status {
        JobStatus::PaymentPending => ("$ Awaiting", Tint::Yellow),
        JobStatus::Processing => ("⚙ Running", Tint::Cyan),
        JobStatus::Completed => ("✓ Done", Tint::Green),
        JobStatus::Failed(_) => ("✗ Failed", Tint::Red),
    }
}

/// The label of a job's status in the job detail.
pub fn status_label(status: &JobStatus) -> (r: &'static str)
    ensures
        r@ == match status@ {
            StatusView::PaymentPending => "$ Payment"@,
            StatusView::Processing => "⚙ Running"@,
            StatusView::Completed => "✓ Done"@,
            StatusView::Failed(_) => "✗ Failed"@,
        },
{
    match status {
        JobStatus::PaymentPending => "$ Payment",
        JobStatus::Processing => "⚙ Running",
        JobStatus::Completed => "✓ Done",
        JobStatus::Failed(_) => "✗ Failed",
    }
}

pub open spec fn status_tint(s: StatusView) -> Tint {
    match s {
        StatusView::PaymentPending => Tint::Yellow,
        StatusView::Processing => Tint::Cyan,
        StatusView::Completed => Tint::Green,
        StatusView::Failed(_) => Tint::Red,
    }
}

/// The colour of a job's status in the job detail.
pub fn status_detail_tint(status: &JobStatus) -> (r: Tint)
    ensures
        r == status_tint(status@),
{
    match status {
        JobStatus::PaymentPending => Tint::Yellow,
        JobStatus::Processing => Tint::Cyan,
        JobStatus::Completed => Tint::Green,
        JobStatus::Failed(_) => Tint::Red,
    }
}

/// How many jobs are running, done and failed.
pub open spec fn count_status(jobs: Seq<JobView>, pred: spec_fn(StatusView) -> bool) -> nat
    decreases jobs.len(),
{
    if jobs.len() == 0 {
        0
    } else {
        count_status(jobs.drop_last(), pred) + if pred(jobs.last().status) {
            1nat
        } else {
            0nat
        }
    }
}

pub open spec fn is_running(s: StatusView) -> bool {
    s is Processing
}

pub open spec fn is_done(s: StatusView) -> bool {
    s is Completed
}

pub open spec fn is_failed(s: StatusView) -> bool {
    s is Failed
}

/// The title of the job table.
pub open spec fn jobs_title_of(jobs: Seq<JobView>) -> Seq<char> {
    if jobs.len() == 0 {
        " Jobs "@
    } else {
        " Jobs ("@ + decimal(jobs.len()) + ") — "@ + decimal(count_status(jobs, |s| is_running(s)))
            + " running, "@ + decimal(count_status(jobs, |s| is_done(s))) + " done, "@ + decimal(
            count_status(jobs, |s| is_failed(s)),
        ) + " failed "@
    }
}

/// The title of the job table: the number of jobs and how many are running,
/// done and failed.
pub fn jobs_title(jobs: &Vec<JobEntry>) -> (r: String)
    ensures
        r@ == jobs_title_of(jobs@.map_values(|j: JobEntry| j@)),
{
    let ghost views = jobs@.map_values(|j: JobEntry| j@);
    let n = jobs.len();
    if n == 0 {
        return String::from_str(" Jobs ");
    }
    let mut running: usize = 0;
    let mut done: usize = 0;
    let mut failed: usize = 0;
    for i in 0..n
        invariant
            n == jobs@.len(),
            views == jobs@.map_values(|j: JobEntry| j@),
            running == count_status(views.take(i as int), |s| is_running(s)),
            done == count_status(views.take(i as int), |s| is_done(s)),
            failed == count_status(views.take(i as int), |s| is_failed(s)),
            running <= i,
            done <= i,
            failed <= i,
    {
        proof {
            assert(views.take(i + 1).drop_last() =~= views.take(i as int));
            assert(views.take(i + 1).last() == jobs@[i as int]@);
        }
        match &jobs[i].status {
            JobStatus::Processing => {
                running = running + 1;
            },
            JobStatus::Completed => {
                done = done + 1;
            },
            JobStatus::Failed(_) => {
                failed = failed + 1;
            },
            JobStatus::PaymentPending => {},
        }
    }
    assert(views.take(n as int) =~= views);
    let mut t = String::from_str(" Jobs (");
    push_decimal(&mut t, n as u64);
    t.append(") — ");
    push_decimal(&mut t, running as u64);
    t.append(" running, ");
    push_decimal(&mut t, done as u64);
    t.append(" done, ");
    push_decimal(&mut t, failed as u64);
    t.append(" failed ");
    t
}

/// Whole seconds a job has run: until it completed, or until `now_ms`;
/// zero when the clock reads earlier than the start.
pub open spec fn elapsed_secs_of(started_at: i64, completed_at: Option<i64>, now_ms: i64) -> nat {
    let end = match completed_at {
        Some(t) => t,
        None => now_ms,
    };
    if end <= started_at {
        0
    } else {
        ((end - started_at) / 1000) as nat
    }
}

pub fn elapsed_secs(started_at: i64, completed_at: Option<i64>, now_ms: i64) -> (r: u64)
    ensures
        r == elapsed_secs_of(started_at, completed_at, now_ms),
{
    let end = match completed_at {
        Some(t) => t,
        None => now_ms,
    };
    if end <= started_at {
        0
    } else {
        let d = (end as i128 - started_at as i128) / 1000;
        d as u64
    }
}

/// The time column of the job table: `MMmSSs` from a minute on, else `SSSSs`.
pub open spec fn table_time_of(secs: nat) -> Seq<char> {
    if secs >= 60 {
        pad_left(decimal(secs / 60), 2, ' ') + seq!['m'] + pad_left(decimal(secs % 60), 2, '0')
            + seq!['s']
    } else {
        pad_left(decimal(secs), 4, ' ') + seq!['s']
    }
}

pub fn table_time(secs: u64) -> (r: String)
    ensures
        r@ == table_time_of(secs as nat),
{
    proof {
        reveal_strlit(" ");
        reveal_strlit("0");
        reveal_strlit("m");
        reveal_strlit("s");
    }
    if secs >= 60 {
        let mut t = pad_left_string(decimal_string(secs / 60).as_str(), 2, " ");
        t.append("m");
        t.append(pad_left_string(decimal_string(secs % 60).as_str(), 2, "0").as_str());
        t.append("s");
        t
    } else {
        let mut t = pad_left_string(decimal_string(secs).as_str(), 4, " ");
        t.append("s");
        t
    }
}

/// The duration in the job detail: `MmSs` from a minute on, else `Ss`.
pub open spec fn detail_duration_of(secs: nat) -> Seq<char> {
    if secs >= 60 {
        decimal(secs / 60) + seq!['m'] + decimal(secs % 60) + seq!['s']
    } else {
        decimal(secs) + seq!['s']
    }
}

pub fn detail_duration(secs: u64) -> (r: String)
    ensures
        r@ == detail_duration_of(secs as nat),
{
    proof {
        reveal_strlit("m");
        reveal_strlit("s");
    }
    if secs >= 60 {
        let mut t = decimal_string(secs / 60);
        t.append("m");
        push_decimal(&mut t, secs % 60);
        t.append("s");
        t
    } else {
        let mut t = decimal_string(secs);
        t.append("s");
        t
    }
}

/// `s` cut to its first `n` bytes with `…` appended when it is longer.
pub open spec fn ellipsized_of(s: Seq<char>, n: int) -> Seq<char> {
    if utf8_len(s) > n {
        byte_prefix_of(s, n) + "…"@
    } else {
        s
    }
}

pub fn ellipsized(s: &str, n: usize) -> (r: String)
    requires
        prefix_sliceable(s@, n as int),
    ensures
        r@ == ellipsized_of(s@, n as int),
{
    if utf8_length(s) > n {
        let mut t = String::from_str(byte_prefix(s, n));
        t.append("…");
        t
    } else {
        String::from_str(s)
    }
}

/// `s` with every line feed replaced by a space.
pub open spec fn one_line_of(s: Seq<char>) -> Seq<char> {
    s.map_values(|c: char| if c == '\n' { ' ' } else { c })
}

pub fn one_line(s: &str) -> (r: String)
    ensures
        r@ == one_line_of(s@),
{
    let mut out = String::new();
    let n = s.unicode_len();
    let mut i: usize = 0;
    while i < n
        invariant
            i <= n,
            n == s@.len(),
            out@ == one_line_of(s@.take(i as int)),
        decreases n - i,
    {
        let c = s.get_char(i);
        proof {
            reveal_strlit(" ");
        }
        if c == '\n' {
            out.append(" ");
            assert(" "@ =~= seq![' ']);
        } else {
            // Append the character itself, found as a one-character slice.
            let piece = s.substring_char(i, i + 1);
            assert(piece@ =~= seq![c]);
            out.append(piece);
        }
        assert(one_line_of(s@.take(i + 1)) =~= one_line_of(s@.take(i as int)) + seq![
            if c == '\n' {
                ' '
            } else {
                c
            },
        ]);
        i = i + 1;
    }
    assert(s@.take(n as int) =~= s@);
    out
}

/// The first 60 bytes of a job's input (with `…` when longer), on one line.
pub fn input_preview(input: &str) -> (r: String)
    requires
        prefix_sliceable(input@, 60),
    ensures
        r@ == one_line_of(ellipsized_of(input@, 60)),
{
    let cut = ellipsized(input, 60);
    one_line(cut.as_str())
}

/// The SOL column of the job table: the price right-aligned in 7 characters,
/// or `--` when there is none.
pub open spec fn sol_cell_of(price: Option<u64>) -> Seq<char> {
    pad_left(
        match price {
            Some(p) => sol_compact(p as nat),
            None => "   --"@,
        },
        7,
        ' ',
    )
}

pub fn sol_cell(price: Option<u64>) -> (r: String)
    ensures
        r@ == sol_cell_of(price),
{
    proof {
        reveal_strlit(" ");
    }
    let s = match price {
        Some(p) => format_sol_compact(p),
        None => String::from_str("   --"),
    };
    pad_left_string(s.as_str(), 7, " ")
}

/// The price in the header: `FREE`, or the price in SOL.
pub open spec fn header_price_of(free_mode: bool, price: u64) -> Seq<char> {
    if free_mode {
        "FREE"@
    } else {
        sol_compact(price as nat) + " SOL"@
    }
}

pub fn header_price(free_mode: bool, price: u64) -> (r: String)
    ensures
        r@ == header_price_of(free_mode, price),
{
    if free_mode {
        String::from_str("FREE")
    } else {
        let mut t = format_sol_compact(price);
        t.append(" SOL");
        t
    }
}

/// The price line of the job detail: price and net in SOL, `—` when unpriced.
pub open spec fn detail_price_of(price: Option<u64>, net: Option<u64>) -> Seq<char> {
    (match price {
        Some(p) => sol_compact(p as nat) + " SOL"@,
        None => "—"@,
    }) + (match net {
        Some(n) => " (net: "@ + sol_compact(n as nat) + " SOL)"@,
        None => Seq::empty(),
    })
}

pub fn detail_price(price: Option<u64>, net: Option<u64>) -> (r: String)
    ensures
        r@ == detail_price_of(price, net),
{
    let mut t = match price {
        Some(p) => {
            let mut s = format_sol_compact(p);
            s.append(" SOL");
            s
        },
        None => String::from_str("—"),
    };
    match net {
        Some(n) => {
            t.append(" (net: ");
            t.append(format_sol_compact(n).as_str());
            t.append(" SOL)");
        },
        None => {
            assert(t@ + Seq::<char>::empty() =~= t@);
        },
    }
    t
}

/// Where a log pane scrolls: to the end unless the pane has focus, and never
/// past the last full page.
pub open spec fn log_scroll_of(scroll: u16, total: nat, height: nat, focused: bool) -> u16 {
    let max = (if total > height { total - height } else { 0 }) as u16;
    if !focused || scroll > max {
        max
    } else {
        scroll
    }
}

pub fn log_scroll(scroll: u16, total: usize, height: usize, focused: bool) -> (r: u16)
    ensures
        r == log_scroll_of(scroll, total as nat, height as nat, focused),
{
    let max = total.saturating_sub(height) as u16;
    if !focused || scroll > max {
        max
    } else {
        scroll
    }
}

/// The height of a bordered pane's inside.
pub fn inner_height(height: u16) -> (r: usize)
    ensures
        r == (if height > 2 { height - 2 } else { 0 }),
{
    height.saturating_sub(2) as usize
}

impl App {
    /// Whether the job table has focus.
    pub fn table_focused(&self) -> (r: bool)
        ensures
            r == (self.focus == Focus::Table),
    {
        match self.focus {
            Focus::Table => true,
            Focus::Log => false,
        }
    }

    /// The label of the sound toggle in the help bar.
    pub fn sound_label(&self) -> (r: &'static str)
        ensures
            r@ == (if self.sound_enabled { "sound:on"@ } else { "sound:off"@ }),
    {
        if self.sound_enabled {
            "sound:on"
        } else {
            "sound:off"
        }
    }
}

proof fn lemma_count_running(jobs: Seq<JobView>)
    ensures
        count_status(jobs, |s| is_running(s)) == jobs.filter(|j: JobView| j.status is Processing).len(),
    decreases jobs.len(),
{
    reveal(Seq::filter);
    if jobs.len() > 0 {
        lemma_count_running(jobs.drop_last());
    }
}

proof fn lemma_count_done(jobs: Seq<JobView>)
    ensures
        count_status(jobs, |s| is_done(s)) == jobs.filter(|j: JobView| j.status is Completed).len(),
    decreases jobs.len(),
{
    reveal(Seq::filter);
    if jobs.len() > 0 {
        lemma_count_done(jobs.drop_last());
    }
}

proof fn lemma_count_failed(jobs: Seq<JobView>)
    ensures
        count_status(jobs, |s| is_failed(s)) == jobs.filter(|j: JobView| j.status is Failed).len(),
    decreases jobs.len(),
{
    reveal(Seq::filter);
    if jobs.len() > 0 {
        lemma_count_failed(jobs.drop_last());
    }
}

/// The job table's title gives the number of jobs, then how many are
/// running, how many completed and how many failed.
pub proof fn law_jobs_title(jobs: Seq<JobView>)
    ensures
        jobs.len() == 0 ==> jobs_title_of(jobs) == " Jobs "@,
        jobs.len() > 0 ==> jobs_title_of(jobs) == " Jobs ("@ + decimal(jobs.len()) + ") — "@
            + decimal(jobs.filter(|j: JobView| j.status is Processing).len()) + " running, "@
            + decimal(jobs.filter(|j: JobView| j.status is Completed).len()) + " done, "@ + decimal(
            jobs.filter(|j: JobView| j.status is Failed).len(),
        ) + " failed "@,
{
    lemma_count_running(jobs);
    lemma_count_done(jobs);
    lemma_count_failed(jobs);
}

/// A job's time is its run in whole seconds, rounded down: from its start to
/// its completion, or to now while it runs; nothing before its start. Once
/// completed it no longer moves, and while it runs it never goes back.
pub proof fn law_elapsed_secs(started_at: i64, completed_at: Option<i64>, now_ms: i64, later_ms: i64)
    ensures
        ({
            let end = match completed_at {
                Some(t) => t,
                None => now_ms,
            };
            let secs = elapsed_secs_of(started_at, completed_at, now_ms);
            &&& end <= started_at ==> secs == 0
            &&& end > started_at ==> secs * 1000 <= end - started_at < secs * 1000 + 1000
        }),
        completed_at is Some ==> elapsed_secs_of(started_at, completed_at, now_ms)
            == elapsed_secs_of(started_at, completed_at, later_ms),
        completed_at is None && now_ms <= later_ms ==> elapsed_secs_of(started_at, completed_at, now_ms)
            <= elapsed_secs_of(started_at, completed_at, later_ms),
{
    let d1 = now_ms - started_at;
    let d2 = later_ms - started_at;
    if completed_at is None && now_ms <= later_ms && d1 > 0 {
        assert(d1 / 1000 <= d2 / 1000) by (nonlinear_arith)
            requires
                0 < d1 <= d2,
        ;
    }
}

/// A log pane shows its last page unless it has focus; with focus it stays
/// where it was scrolled, up to the last page, never past it.
pub proof fn law_log_scroll(scroll: u16, total: nat, height: nat, focused: bool)
    requires
        total <= height + u16::MAX,
    ensures
        ({
            let last_page: int = if total > height { total - height } else { 0 };
            let r = log_scroll_of(scroll, total, height, focused);
            &&& r <= last_page
            &&& !focused ==> r == last_page
            &&& focused && scroll <= last_page ==> r == scroll
            &&& focused && scroll > last_page ==> r == last_page
        }),
{
}

/// The time column has a fixed width up to 99m59s: five characters under a
/// minute, six from a minute on, where the minutes and a zero-padded
/// two-digit seconds field stand around an `m`; it always ends in `s`.
pub proof fn law_table_time_width(secs: nat)
    requires
        secs < 6000,
    ensures
        secs < 60 ==> table_time_of(secs).len() == 5,
        secs >= 60 ==> table_time_of(secs).len() == 6 && table_time_of(secs)[2] == 'm',
        secs >= 60 && secs % 60 < 10 ==> table_time_of(secs)[3] == '0',
        table_time_of(secs).last() == 's',
{
    let m = secs / 60;
    let r = secs % 60;
    lemma_decimal_below_hundred(m);
    lemma_decimal_below_hundred(r);
    lemma_decimal_below_hundred(secs % 100);
    if secs < 60 {
        lemma_decimal_below_hundred(secs);
    }
}

proof fn lemma_decimal_below_hundred(n: nat)
    ensures
        n < 100 ==> 1 <= decimal(n).len() <= 2,
{
    if n >= 10 && n < 100 {
        assert(n / 10 < 10);
        assert(decimal(n / 10).len() == 1);
    }
}

} // verus!
