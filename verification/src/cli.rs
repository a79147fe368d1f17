//! The command line: what the commands print, and with what code they end.

use vstd::prelude::*;
use crate::capture::spec::{
    bytes_read, default_output_path, duration_in, in_directory, label_for, parse_bytes,
    parse_duration, CaptureSpec, CaptureTarget,
};
use crate::capture::stream::CaptureMessage;
use crate::cluster::diagnostics::{
    result_views, DiagnosticResult, DiagnosticStatus, DiagnosticsReport, ResultView, StatusView,
    SuiteKind,
};
use crate::cluster::ingress::{HostsUpdateResult, HOSTS_MARKER};
use crate::elapsed::{tenths, tenths_of};
use crate::number::{decimal, i64_text, signed_decimal, u128_text, u64_text};
use crate::output::{error, success, LineView, OutputLine, OutputType};
use crate::text::{
    contains, has_sub, law_padding_keeps_the_text, lemma_has_in, lemma_has_middle, lines, no_texts,
    occurs_at, opt_clone, opt_view, pad, padded, push_text, repeat, repeated, same, split_lines, views,
};

verus! {

// ---------------------------------------------------------------------------
// Lines
// ---------------------------------------------------------------------------

/// The colour of a line.
pub open spec fn color_of(k: OutputType) -> Seq<char> {
    match k {
        OutputType::Info => "\x1b[0m"@,
        OutputType::Success => "\x1b[32m"@,
        OutputType::Error => "\x1b[31m"@,
        OutputType::Warning => "\x1b[33m"@,
    }
}

/// A line of output as it is printed at a time, given as `[HH:MM:SS]`.
pub fn print_output_line(line: &OutputLine, timestamp: &str) -> (r: String)
    ensures
        r@ == "\x1b[90m"@ + timestamp@ + "\x1b[0m "@ + color_of(line.kind) + line.text@
            + "\x1b[0m"@,
{
    let mut s = "\x1b[90m".to_owned();
    s.append(timestamp);
    s.append("\x1b[0m ");
    s.append(
        match line.kind {
            OutputType::Info => "\x1b[0m",
            OutputType::Success => "\x1b[32m",
            OutputType::Error => "\x1b[31m",
            OutputType::Warning => "\x1b[33m",
        },
    );
    s.append(line.text.as_str());
    s.append("\x1b[0m");
    s
}

/// What came of an operation on the cluster.
#[derive(Debug)]
pub enum ActionOutcome {
    Done,
    Failed(String),
    Panicked(String),
    TimedOut,
}

/// The last line of an operation on the cluster and its exit code.
pub open spec fn action_end(outcome: ActionOutcome) -> (LineView, i32) {
    match outcome {
        ActionOutcome::Done => (success("Done."@), 0i32),
        ActionOutcome::Failed(e) => (error("Error: "@ + e@), 1i32),
        ActionOutcome::Panicked(e) => (error("Task panicked: "@ + e@), 1i32),
        ActionOutcome::TimedOut => (error("Operation timed out"@), 1i32),
    }
}

/// The last line of an operation on the cluster and its exit code.
pub fn run_cli_action(outcome: &ActionOutcome) -> (r: (OutputLine, i32))
    ensures
        (r.0@, r.1) == action_end(*outcome),
        r.1 == 0 <==> *outcome is Done,
{
    match outcome {
        ActionOutcome::Done => (OutputLine::success("Done."), 0),
        ActionOutcome::Failed(e) => {
            let mut s = "Error: ".to_owned();
            s.append(e.as_str());
            (OutputLine::error(s.as_str()), 1)
        },
        ActionOutcome::Panicked(e) => {
            let mut s = "Task panicked: ".to_owned();
            s.append(e.as_str());
            (OutputLine::error(s.as_str()), 1)
        },
        ActionOutcome::TimedOut => (OutputLine::error("Operation timed out"), 1),
    }
}

/// What a command prints, and its exit code.
#[derive(Debug)]
pub struct Printed {
    pub stdout: String,
    pub stderr: String,
    pub code: i32,
}

impl Printed {
    /// Whether exactly this is printed.
    pub open spec fn is(&self, stdout: Seq<char>, stderr: Seq<char>, code: int) -> bool {
        self.stdout@ == stdout && self.stderr@ == stderr && self.code == code
    }
}

fn to_stdout(s: String, code: i32) -> (r: Printed)
    ensures
        r.is(s@, Seq::empty(), code as int),
{
    let none = String::new();
    assert(none@ =~= Seq::<char>::empty());
    Printed { stdout: s, stderr: none, code }
}

fn to_stderr(s: String, code: i32) -> (r: Printed)
    ensures
        r.is(Seq::empty(), s@, code as int),
{
    let none = String::new();
    assert(none@ =~= Seq::<char>::empty());
    Printed { stdout: none, stderr: s, code }
}

fn three(a: &str, b: &str, c: &str) -> (r: String)
    ensures
        r@ == a@ + b@ + c@,
{
    let mut s = a.to_owned();
    s.append(b);
    s.append(c);
    s
}

// ---------------------------------------------------------------------------
// Diagnostics
// ---------------------------------------------------------------------------

/// How far the results of a suite have been printed: the category that was last named, how many
/// results are printed for good, and whether a line is open for the running one.
#[derive(Debug)]
pub struct SuitePrinter {
    pub last_category: String,
    pub printed: usize,
    pub open_line: bool,
}

/// How far results have been printed, as a value.
pub struct PrinterState {
    pub last_category: Seq<char>,
    pub printed: int,
    pub open_line: bool,
}

impl View for SuitePrinter {
    type V = PrinterState;

    open spec fn view(&self) -> PrinterState {
        PrinterState {
            last_category: self.last_category@,
            printed: self.printed as int,
            open_line: self.open_line,
        }
    }
}

/// A duration as it is printed behind a test; nothing where there is none.
pub open spec fn duration_note(d: Option<u64>) -> Seq<char> {
    match d {
        Some(ns) => " \x1b[90m("@ + decimal(tenths(ns as nat) / 10) + "."@ + decimal(
            tenths(ns as nat) % 10,
        ) + "s)\x1b[0m"@,
        None => Seq::empty(),
    }
}

/// The line that names a category.
pub open spec fn category_line(category: Seq<char>) -> Seq<char> {
    "\x1b[1;36m── "@ + category + " ──\x1b[0m\n"@
}

/// The line of a category, where it was not the last that was named.
pub open spec fn new_category(st: PrinterState, category: Seq<char>) -> Seq<char> {
    if category == st.last_category {
        Seq::empty()
    } else {
        category_line(category)
    }
}

/// What returns to the begin of an open line.
pub open spec fn reopened(st: PrinterState) -> Seq<char> {
    if st.open_line {
        "\r"@
    } else {
        Seq::empty()
    }
}

/// What is printed of the `i`th result.
pub open spec fn result_text(st: PrinterState, i: int, r: ResultView) -> Seq<char> {
    if i < st.printed {
        Seq::empty()
    } else {
        match r.status {
            StatusView::Pending => Seq::empty(),
            StatusView::Running => new_category(st, r.category) + "  \x1b[33m⟳\x1b[0m "@ + r.name
                + "..."@,
            StatusView::Passed => reopened(st) + "  \x1b[32m✓\x1b[0m "@ + r.name + duration_note(
                r.duration,
            ) + "\n"@,
            StatusView::Failed(e) => reopened(st) + "  \x1b[31m✗\x1b[0m "@ + r.name + duration_note(
                r.duration,
            ) + "\n    \x1b[31m"@ + e + "\x1b[0m\n"@,
            StatusView::Skipped(e) => new_category(st, r.category) + "  \x1b[90m⊘ "@ + r.name
                + " (skipped: "@ + e + ")\x1b[0m\n"@,
        }
    }
}

/// How far results have been printed after the `i`th.
pub open spec fn after_result(st: PrinterState, i: int, r: ResultView) -> PrinterState {
    if i < st.printed {
        st
    } else {
        match r.status {
            StatusView::Pending => st,
            StatusView::Running => PrinterState {
                last_category: r.category,
                printed: st.printed,
                open_line: true,
            },
            StatusView::Skipped(_) => PrinterState {
                last_category: r.category,
                printed: i + 1,
                open_line: st.open_line,
            },
            _ => PrinterState {
                last_category: st.last_category,
                printed: i + 1,
                open_line: false,
            },
        }
    }
}

/// How far results have been printed after the first `n`.
pub open spec fn after_results(st: PrinterState, rs: Seq<ResultView>, n: int) -> PrinterState
    decreases n,
{
    if n <= 0 {
        st
    } else {
        after_result(after_results(st, rs, n - 1), n - 1, rs[n - 1])
    }
}

/// What is printed of the first `n` results.
pub open spec fn results_text(st: PrinterState, rs: Seq<ResultView>, n: int) -> Seq<char>
    decreases n,
{
    if n <= 0 {
        Seq::empty()
    } else {
        results_text(st, rs, n - 1) + result_text(
            after_results(st, rs, n - 1),
            n - 1,
            rs[n - 1],
        )
    }
}

fn note_duration(d: Option<u64>) -> (r: String)
    ensures
        r@ == duration_note(d),
{
    match d {
        Some(ns) => {
            let t: u128 = tenths_of(ns as u128);
            let mut s = " \x1b[90m(".to_owned();
            s.append(u128_text(t / 10).as_str());
            s.append(".");
            s.append(u128_text(t % 10).as_str());
            s.append("s)\x1b[0m");
            s
        },
        None => {
            let s = String::new();
            assert(s@ =~= Seq::<char>::empty());
            s
        },
    }
}

impl SuitePrinter {
    /// A printer that has printed nothing.
    pub fn new() -> (r: SuitePrinter)
        ensures
            r@.last_category == Seq::<char>::empty(),
            r@.printed == 0,
            !r@.open_line,
    {
        let last_category = String::new();
        assert(last_category@ =~= Seq::<char>::empty());
        SuitePrinter { last_category, printed: 0, open_line: false }
    }

    fn name_category(&mut self, category: &str) -> (r: String)
        ensures
            r@ == new_category(old(self)@, category@),
            final(self)@ == (PrinterState { last_category: category@, ..old(self)@ }),
    {
        if same(category, self.last_category.as_str()) {
            let s = String::new();
            assert(s@ =~= Seq::<char>::empty());
            s
        } else {
            self.last_category = category.to_owned();
            three("\x1b[1;36m── ", category, " ──\x1b[0m\n")
        }
    }

    fn reopen(&mut self) -> (r: String)
        ensures
            r@ == reopened(old(self)@),
            final(self)@ == (PrinterState { open_line: false, ..old(self)@ }),
    {
        if self.open_line {
            self.open_line = false;
            "\r".to_owned()
        } else {
            let s = String::new();
            assert(s@ =~= Seq::<char>::empty());
            s
        }
    }

    fn print_result(&mut self, i: usize, x: &DiagnosticResult) -> (r: String)
        requires
            i < usize::MAX,
        ensures
            r@ == result_text(old(self)@, i as int, x@),
            final(self)@ == after_result(old(self)@, i as int, x@),
    {
        let none = String::new();
        assert(none@ =~= Seq::<char>::empty());
        if i < self.printed {
            return none;
        }
        match &x.status {
            DiagnosticStatus::Pending => none,
            DiagnosticStatus::Running => {
                let mut s = self.name_category(x.category);
                s.append("  \x1b[33m⟳\x1b[0m ");
                s.append(x.name.as_str());
                s.append("...");
                self.open_line = true;
                s
            },
            DiagnosticStatus::Passed => {
                let mut s = self.reopen();
                s.append("  \x1b[32m✓\x1b[0m ");
                s.append(x.name.as_str());
                s.append(note_duration(x.duration).as_str());
                s.append("\n");
                self.printed = i + 1;
                s
            },
            DiagnosticStatus::Failed(e) => {
                let mut s = self.reopen();
                s.append("  \x1b[31m✗\x1b[0m ");
                s.append(x.name.as_str());
                s.append(note_duration(x.duration).as_str());
                s.append("\n    \x1b[31m");
                s.append(e.as_str());
                s.append("\x1b[0m\n");
                self.printed = i + 1;
                s
            },
            DiagnosticStatus::Skipped(e) => {
                let mut s = self.name_category(x.category);
                s.append("  \x1b[90m⊘ ");
                s.append(x.name.as_str());
                s.append(" (skipped: ");
                s.append(e.as_str());
                s.append(")\x1b[0m\n");
                self.printed = i + 1;
                s
            },
        }
    }

    /// What is printed of a report: the results that were not printed for good before.
    pub fn run_cli_diagnostics(&mut self, report: &DiagnosticsReport) -> (r: String)
        ensures
            r@ == results_text(
                old(self)@,
                result_views(report.results@),
                report.results@.len() as int,
            ),
            final(self)@ == after_results(
                old(self)@,
                result_views(report.results@),
                report.results@.len() as int,
            ),
    {
        let ghost st = self@;
        let ghost rs = result_views(report.results@);
        let mut s = String::new();
        let n: usize = report.results.len();
        let mut i: usize = 0;
        assert(s@ =~= Seq::<char>::empty());
        while i < n
            invariant
                n == report.results@.len(),
                i <= n,
                rs == result_views(report.results@),
                self@ == after_results(st, rs, i as int),
                s@ == results_text(st, rs, i as int),
            decreases n - i,
        {
            assert(rs[i as int] == report.results@[i as int]@);
            let t = self.print_result(i, &report.results[i]);
            s.append(t.as_str());
            i = i + 1;
        }
        s
    }
}

/// How many tests of a report passed, failed and were skipped.
pub open spec fn tally(rs: Seq<ResultView>) -> (nat, nat, nat)
    decreases rs.len(),
{
    if rs.len() == 0 {
        (0, 0, 0)
    } else {
        let t = tally(rs.drop_last());
        match rs.last().status {
            StatusView::Passed => (t.0 + 1, t.1, t.2),
            StatusView::Failed(_) => (t.0, t.1 + 1, t.2),
            StatusView::Skipped(_) => (t.0, t.1, t.2 + 1),
            _ => t,
        }
    }
}

/// The head of a suite's output.
pub fn suite_title(k: SuiteKind) -> (r: &'static str)
    ensures
        r@ == match k {
            SuiteKind::Diagnostics => "\x1b[1mRunning cluster diagnostics...\x1b[0m\n\n"@,
            SuiteKind::Preflight => "\x1b[1mRunning preflight checks...\x1b[0m\n\n"@,
        },
{
    match k {
        SuiteKind::Diagnostics => "\x1b[1mRunning cluster diagnostics...\x1b[0m\n\n",
        SuiteKind::Preflight => "\x1b[1mRunning preflight checks...\x1b[0m\n\n",
    }
}

/// The summary of a suite in which nothing failed.
pub open spec fn good_summary(k: SuiteKind, passed: nat, total: nat, skipped: nat) -> Seq<char> {
    match k {
        SuiteKind::Diagnostics => "\n\x1b[32m✓ All tests passed ("@ + decimal(passed) + "/"@
            + decimal(total) + ", "@ + decimal(skipped) + " skipped)\x1b[0m\n"@,
        SuiteKind::Preflight => "\n\x1b[32m✓ Ready to start ("@ + decimal(passed) + "/"@ + decimal(
            total,
        ) + " passed, "@ + decimal(skipped) + " skipped)\x1b[0m\n"@,
    }
}

/// The summary of a suite in which something failed.
pub open spec fn bad_summary(passed: nat, total: nat, failed: nat, skipped: nat) -> Seq<char> {
    "\n\x1b[31m✗ "@ + decimal(passed) + "/"@ + decimal(total) + " passed, "@ + decimal(failed)
        + " failed, "@ + decimal(skipped) + " skipped\x1b[0m\n"@
}

/// What is printed at the end of a suite, and its exit code.
pub open spec fn suite_printed(k: SuiteKind, rs: Seq<ResultView>) -> (Seq<char>, int) {
    let t = tally(rs);
    if t.1 == 0 {
        (good_summary(k, t.0, rs.len(), t.2), 0)
    } else {
        (bad_summary(t.0, rs.len(), t.1, t.2), 1)
    }
}

/// What is said of a suite that did not end.
pub open spec fn incomplete(k: SuiteKind) -> Seq<char> {
    match k {
        SuiteKind::Diagnostics => "Diagnostics did not complete\n"@,
        SuiteKind::Preflight => "Preflight checks did not complete\n"@,
    }
}

fn count_results(report: &DiagnosticsReport) -> (r: (u64, u64, u64))
    ensures
        (r.0 as nat, r.1 as nat, r.2 as nat) == tally(result_views(report.results@)),
{
    let ghost rs = result_views(report.results@);
    let n: usize = report.results.len();
    let mut passed: u64 = 0;
    let mut failed: u64 = 0;
    let mut skipped: u64 = 0;
    let mut i: usize = 0;
    assert(rs.take(0) =~= Seq::<ResultView>::empty());
    while i < n
        invariant
            n == report.results@.len(),
            i <= n,
            passed <= i,
            failed <= i,
            skipped <= i,
            rs == result_views(report.results@),
            (passed as nat, failed as nat, skipped as nat) == tally(rs.take(i as int)),
        decreases n - i,
    {
        assert(rs.take(i + 1).drop_last() =~= rs.take(i as int));
        assert(rs.take(i + 1).last() == report.results@[i as int]@);
        match &report.results[i].status {
            DiagnosticStatus::Passed => {
                passed = passed + 1;
            },
            DiagnosticStatus::Failed(_) => {
                failed = failed + 1;
            },
            DiagnosticStatus::Skipped(_) => {
                skipped = skipped + 1;
            },
            _ => {},
        }
        i = i + 1;
    }
    assert(rs.take(i as int) =~= rs);
    (passed, failed, skipped)
}

/// The summary of a suite, given its last report where it ended, and the exit code: 0 where no test
/// failed.
pub fn summarize(k: SuiteKind, report: &Option<DiagnosticsReport>) -> (r: Printed)
    ensures
        match *report {
            None => r.is(Seq::empty(), incomplete(k), 1),
            Some(d) => {
                let p = suite_printed(k, result_views(d.results@));
                r.is(p.0, Seq::empty(), p.1)
            },
        },
        r.code == 0 <==> (*report matches Some(d) && forall|i: int|
            0 <= i < d.results@.len() ==> !((#[trigger] d.results@[i]).status is Failed)),
{
    proof {
        if let Some(d) = report {
            let rs = result_views(d.results@);
            law_suite_code(rs);
            assert forall|i: int| 0 <= i < rs.len() implies ((#[trigger] rs[i]).status is Failed)
                == (d.results@[i].status is Failed) by {}
            if tally(rs).1 == 0 {
                assert forall|i: int| 0 <= i < d.results@.len() implies !((
                #[trigger] d.results@[i]).status is Failed) by {
                    assert(!(rs[i].status is Failed));
                }
            }
        }
    }
    match report {
        None => match k {
            SuiteKind::Diagnostics => to_stderr("Diagnostics did not complete\n".to_owned(), 1),
            SuiteKind::Preflight => to_stderr("Preflight checks did not complete\n".to_owned(), 1),
        },
        Some(d) => {
            let (passed, failed, skipped) = count_results(d);
            let total: u64 = d.results.len() as u64;
            if failed == 0 {
                match k {
                    SuiteKind::Diagnostics => {
                        let mut s = "\n\x1b[32m✓ All tests passed (".to_owned();
                        s.append(u64_text(passed).as_str());
                        s.append("/");
                        s.append(u64_text(total).as_str());
                        s.append(", ");
                        s.append(u64_text(skipped).as_str());
                        s.append(" skipped)\x1b[0m\n");
                        to_stdout(s, 0)
                    },
                    SuiteKind::Preflight => {
                        let mut s = "\n\x1b[32m✓ Ready to start (".to_owned();
                        s.append(u64_text(passed).as_str());
                        s.append("/");
                        s.append(u64_text(total).as_str());
                        s.append(" passed, ");
                        s.append(u64_text(skipped).as_str());
                        s.append(" skipped)\x1b[0m\n");
                        to_stdout(s, 0)
                    },
                }
            } else {
                let mut s = "\n\x1b[31m✗ ".to_owned();
                s.append(u64_text(passed).as_str());
                s.append("/");
                s.append(u64_text(total).as_str());
                s.append(" passed, ");
                s.append(u64_text(failed).as_str());
                s.append(" failed, ");
                s.append(u64_text(skipped).as_str());
                s.append(" skipped\x1b[0m\n");
                to_stdout(s, 1)
            }
        },
    }
}

// ---------------------------------------------------------------------------
// The hosts file
// ---------------------------------------------------------------------------

/// The lines, indented, each on a line of its own.
pub open spec fn indented(ls: Seq<Seq<char>>) -> Seq<char>
    decreases ls.len(),
{
    if ls.len() == 0 {
        Seq::empty()
    } else {
        indented(ls.drop_last()) + ("  "@ + ls.last() + "\n"@)
    }
}

/// The marked lines among lines.
pub open spec fn marked(ls: Seq<Seq<char>>) -> Seq<Seq<char>>
    decreases ls.len(),
{
    if ls.len() == 0 {
        Seq::empty()
    } else if has_sub(ls.last(), HOSTS_MARKER@) {
        marked(ls.drop_last()).push(ls.last())
    } else {
        marked(ls.drop_last())
    }
}

fn indent_all(v: &Vec<String>) -> (r: String)
    ensures
        r@ == indented(views(v@)),
{
    let ghost all = views(v@);
    let mut s = String::new();
    let mut i: usize = 0;
    assert(all.take(0) =~= Seq::<Seq<char>>::empty());
    assert(s@ =~= Seq::<char>::empty());
    while i < v.len()
        invariant
            i <= v@.len(),
            all == views(v@),
            s@ == indented(all.take(i as int)),
        decreases v@.len() - i,
    {
        assert(all.take(i + 1).drop_last() =~= all.take(i as int));
        assert(all.take(i + 1).last() == v@[i as int]@);
        s.append(three("  ", v[i].as_str(), "\n").as_str());
        i = i + 1;
    }
    assert(all.take(i as int) =~= all);
    s
}

fn marked_lines(content: &str) -> (r: Vec<String>)
    ensures
        views(r@) == marked(lines(content@)),
{
    let ls = split_lines(content);
    let ghost all = lines(content@);
    let mut out = no_texts();
    let mut i: usize = 0;
    assert(all.take(0) =~= Seq::<Seq<char>>::empty());
    while i < ls.len()
        invariant
            i <= ls@.len(),
            all == views(ls@),
            views(out@) == marked(all.take(i as int)),
        decreases ls@.len() - i,
    {
        assert(all.take(i + 1).drop_last() =~= all.take(i as int));
        assert(all.take(i + 1).last() == ls@[i as int]@);
        if contains(ls[i].as_str(), HOSTS_MARKER) {
            push_text(&mut out, ls[i].as_str());
        }
        i = i + 1;
    }
    assert(all.take(i as int) =~= all);
    out
}

/// What is printed of an update of the hosts file, and the exit code: the lines to add by hand where
/// it could not be written.
pub open spec fn update_printed(result: HostsUpdateResult) -> (Seq<char>, int) {
    match result {
        HostsUpdateResult::NoUpdateNeeded => (
            "\x1b[32m✓ /etc/hosts is already up to date\x1b[0m\n"@,
            0,
        ),
        HostsUpdateResult::WrittenDirectly { count } => (
            "\x1b[32m✓ Updated /etc/hosts with "@ + decimal(count as nat) + " entries\x1b[0m\n"@,
            0,
        ),
        HostsUpdateResult::NeedsSudo { content, count } => (
            "\x1b[33m⚠ Need elevated privileges to write "@ + decimal(count as nat)
                + " entries to /etc/hosts\x1b[0m\nRun with sudo or manually add the following:\n\n"@
                + indented(marked(lines(content@))),
            1,
        ),
        HostsUpdateResult::ReadOnly { entries } => (
            "\x1b[33m⚠ /etc/hosts is read-only. Add these entries manually:\x1b[0m\n\n"@
                + indented(views(entries@)),
            1,
        ),
    }
}

/// What is printed of an update of the hosts file: the lines to add by hand where it could not be
/// written.
pub fn run_cli_update_hosts(result: &HostsUpdateResult) -> (r: Printed)
    ensures
        r.is(update_printed(*result).0, Seq::empty(), update_printed(*result).1),
        r.code == 0 <==> *result is NoUpdateNeeded || *result is WrittenDirectly,
{
    match result {
        HostsUpdateResult::NoUpdateNeeded => to_stdout(
            "\x1b[32m✓ /etc/hosts is already up to date\x1b[0m\n".to_owned(),
            0,
        ),
        HostsUpdateResult::WrittenDirectly { count } => {
            let n = u64_text(*count as u64);
            to_stdout(
                three(
                    "\x1b[32m✓ Updated /etc/hosts with ",
                    n.as_str(),
                    " entries\x1b[0m\n",
                ),
                0,
            )
        },
        HostsUpdateResult::NeedsSudo { content, count } => {
            let n = u64_text(*count as u64);
            let mut s = three(
                "\x1b[33m⚠ Need elevated privileges to write ",
                n.as_str(),
                " entries to /etc/hosts\x1b[0m\nRun with sudo or manually add the following:\n\n",
            );
            s.append(indent_all(&marked_lines(content.as_str())).as_str());
            to_stdout(s, 1)
        },
        HostsUpdateResult::ReadOnly { entries } => {
            let mut s =
                "\x1b[33m⚠ /etc/hosts is read-only. Add these entries manually:\x1b[0m\n\n".to_owned();
            s.append(indent_all(entries).as_str());
            to_stdout(s, 1)
        },
    }
}

// ---------------------------------------------------------------------------
// Pods
// ---------------------------------------------------------------------------

/// A pod in the list of pods.
#[derive(Debug, Clone)]
pub struct ListedPod {
    pub name: String,
    pub namespace: String,
    pub status: String,
    pub ready: bool,
    pub ip: Option<String>,
}

/// The colour of a pod's status.
pub open spec fn status_color(s: Seq<char>) -> Seq<char> {
    if s == "Running"@ {
        "\x1b[32m"@
    } else if s == "Succeeded"@ {
        "\x1b[36m"@
    } else if s == "Pending"@ || s == "ContainerCreating"@ {
        "\x1b[33m"@
    } else {
        "\x1b[31m"@
    }
}

/// The head of the list of pods.
pub open spec fn pods_head() -> Seq<char> {
    "\x1b[1m"@ + padded("NAME"@, 40) + " "@ + padded("NAMESPACE"@, 16) + " "@ + padded(
        "STATUS"@,
        10,
    ) + " "@ + padded("READY"@, 8) + " "@ + padded("IP"@, 16) + "\x1b[0m\n"@ + repeated('-', 90)
        + "\n"@
}

/// The row of a pod.
pub open spec fn pod_line(p: ListedPod) -> Seq<char> {
    padded(p.name@, 40) + " "@ + padded(p.namespace@, 16) + " "@ + status_color(p.status@) + padded(
        p.status@,
        10,
    ) + "\x1b[0m "@ + (if p.ready {
        "\x1b[32m"@
    } else {
        "\x1b[33m"@
    }) + padded(
        if p.ready {
            "Yes"@
        } else {
            "No"@
        },
        8,
    ) + "\x1b[0m "@ + padded(
        match p.ip {
            Some(i) => i@,
            None => "-"@,
        },
        16,
    ) + "\n"@
}

/// The rows of pods.
pub open spec fn pod_table(v: Seq<ListedPod>) -> Seq<char>
    decreases v.len(),
{
    if v.len() == 0 {
        Seq::empty()
    } else {
        pod_table(v.drop_last()) + pod_line(v.last())
    }
}

/// The head of the list of pods.
pub fn print_pods_head() -> (r: String)
    ensures
        r@ == pods_head(),
{
    let mut s = "\x1b[1m".to_owned();
    s.append(pad("NAME", 40).as_str());
    s.append(" ");
    s.append(pad("NAMESPACE", 16).as_str());
    s.append(" ");
    s.append(pad("STATUS", 10).as_str());
    s.append(" ");
    s.append(pad("READY", 8).as_str());
    s.append(" ");
    s.append(pad("IP", 16).as_str());
    s.append("\x1b[0m\n");
    s.append(repeat('-', 90).as_str());
    s.append("\n");
    s
}

fn line_of_pod(p: &ListedPod) -> (r: String)
    ensures
        r@ == pod_line(*p),
{
    let status = p.status.as_str();
    let color = if same(status, "Running") {
        "\x1b[32m"
    } else if same(status, "Succeeded") {
        "\x1b[36m"
    } else if same(status, "Pending") || same(status, "ContainerCreating") {
        "\x1b[33m"
    } else {
        "\x1b[31m"
    };
    let (ready, ready_color) = if p.ready {
        ("Yes", "\x1b[32m")
    } else {
        ("No", "\x1b[33m")
    };
    let ip = match &p.ip {
        Some(i) => i.as_str(),
        None => "-",
    };
    let mut s = pad(p.name.as_str(), 40);
    s.append(" ");
    s.append(pad(p.namespace.as_str(), 16).as_str());
    s.append(" ");
    s.append(color);
    s.append(pad(status, 10).as_str());
    s.append("\x1b[0m ");
    s.append(ready_color);
    s.append(pad(ready, 8).as_str());
    s.append("\x1b[0m ");
    s.append(pad(ip, 16).as_str());
    s.append("\n");
    s
}

/// The rows of the pods of a namespace, or the warning where they could not be listed.
pub fn run_cli_pods(namespace: &str, pods: &Result<Vec<ListedPod>, String>) -> (r: Printed)
    ensures
        match *pods {
            Ok(v) => r.is(pod_table(v@), Seq::empty(), 0),
            Err(e) => r.is(
                Seq::empty(),
                "\x1b[33mWarning: could not list pods in "@ + namespace@ + ": "@ + e@
                    + "\x1b[0m\n"@,
                0,
            ),
        },
{
    match pods {
        Ok(v) => {
            let mut s = String::new();
            let mut i: usize = 0;
            assert(v@.take(0) =~= Seq::<ListedPod>::empty());
            assert(s@ =~= Seq::<char>::empty());
            while i < v.len()
                invariant
                    i <= v@.len(),
                    s@ == pod_table(v@.take(i as int)),
                decreases v@.len() - i,
            {
                assert(v@.take(i + 1).drop_last() =~= v@.take(i as int));
                assert(v@.take(i + 1).last() == v@[i as int]);
                s.append(line_of_pod(&v[i]).as_str());
                i = i + 1;
            }
            assert(v@.take(i as int) =~= v@);
            to_stdout(s, 0)
        },
        Err(e) => {
            let mut s = "\x1b[33mWarning: could not list pods in ".to_owned();
            s.append(namespace);
            s.append(": ");
            s.append(e.as_str());
            s.append("\x1b[0m\n");
            to_stderr(s, 0)
        },
    }
}

/// The last line of the list of pods.
pub fn print_pods_total(total: u64) -> (r: String)
    ensures
        r@ == "\n\x1b[90m"@ + decimal(total as nat) + " pods total\x1b[0m\n"@,
{
    let n = u64_text(total);
    three("\n\x1b[90m", n.as_str(), " pods total\x1b[0m\n")
}

/// A step of a command that can fail.
#[derive(Debug, Clone, Copy, PartialEq, Eq, Structural)]
pub enum CliStep {
    Connect,
    ListNamespaces,
    GetLogs,
    Describe,
    FindPod,
    DeletePod,
    RestartPod,
    ConnectDocker,
    StartCapture,
    CaptureItself,
}

/// What is said before the reason of a failed step.
pub open spec fn complaint(s: CliStep) -> Seq<char> {
    match s {
        CliStep::Connect => "\x1b[31mFailed to connect to cluster: "@,
        CliStep::ListNamespaces => "\x1b[31mFailed to list namespaces: "@,
        CliStep::GetLogs => "\x1b[31mFailed to get logs: "@,
        CliStep::Describe => "\x1b[31mFailed to describe pod: "@,
        CliStep::FindPod => "\x1b[31mPod not found: "@,
        CliStep::DeletePod => "\x1b[31m✗ Failed to delete pod: "@,
        CliStep::RestartPod => "\x1b[31m✗ Failed to restart pod: "@,
        CliStep::ConnectDocker => "\x1b[31mFailed to connect to Docker: "@,
        CliStep::StartCapture => "\x1b[31mFailed to start capture: "@,
        CliStep::CaptureItself => "\x1b[31mCapture failed: "@,
    }
}

/// What a failed step prints: every one ends the command with code 1.
pub fn step_failed(step: CliStep, reason: &str) -> (r: Printed)
    ensures
        r.is(Seq::empty(), complaint(step) + reason@ + "\x1b[0m\n"@, 1),
{
    let head = match step {
        CliStep::Connect => "\x1b[31mFailed to connect to cluster: ",
        CliStep::ListNamespaces => "\x1b[31mFailed to list namespaces: ",
        CliStep::GetLogs => "\x1b[31mFailed to get logs: ",
        CliStep::Describe => "\x1b[31mFailed to describe pod: ",
        CliStep::FindPod => "\x1b[31mPod not found: ",
        CliStep::DeletePod => "\x1b[31m✗ Failed to delete pod: ",
        CliStep::RestartPod => "\x1b[31m✗ Failed to restart pod: ",
        CliStep::ConnectDocker => "\x1b[31mFailed to connect to Docker: ",
        CliStep::StartCapture => "\x1b[31mFailed to start capture: ",
        CliStep::CaptureItself => "\x1b[31mCapture failed: ",
    };
    to_stderr(three(head, reason, "\x1b[0m\n"), 1)
}

/// What is printed before a pod is removed.
pub fn announce_delete(pod: &str, namespace: &str, restart: bool) -> (r: String)
    ensures
        r@ == if restart {
            "Restarting pod \x1b[1m"@ + pod@ + "\x1b[0m in namespace \x1b[1m"@ + namespace@
                + "\x1b[0m (delete and let deployment recreate)...\n"@
        } else {
            "Deleting pod \x1b[1m"@ + pod@ + "\x1b[0m in namespace \x1b[1m"@ + namespace@
                + "\x1b[0m...\n"@
        },
{
    let mut s = if restart {
        "Restarting pod \x1b[1m".to_owned()
    } else {
        "Deleting pod \x1b[1m".to_owned()
    };
    s.append(pod);
    s.append("\x1b[0m in namespace \x1b[1m");
    s.append(namespace);
    s.append(
        if restart {
            "\x1b[0m (delete and let deployment recreate)...\n"
        } else {
            "\x1b[0m...\n"
        },
    );
    s
}

/// What is printed once a pod is removed, or could not be.
pub fn run_cli_delete_pod(pod: &str, result: &Result<(), String>, restart: bool) -> (r: Printed)
    ensures
        r.code == 0 <==> *result is Ok,
        *result is Ok ==> has_sub(r.stdout@, pod@),
        *result matches Err(e) ==> has_sub(r.stderr@, e@),
        match *result {
            Ok(_) => r.is(
                if restart {
                    "\x1b[32m✓ Pod "@ + pod@ + " deleted — deployment will recreate it\x1b[0m\n"@
                } else {
                    "\x1b[32m✓ Pod "@ + pod@ + " deleted\x1b[0m\n"@
                },
                Seq::empty(),
                0,
            ),
            Err(e) => r.is(
                Seq::empty(),
                complaint(
                    if restart {
                        CliStep::RestartPod
                    } else {
                        CliStep::DeletePod
                    },
                ) + e@ + "\x1b[0m\n"@,
                1,
            ),
        },
{
    proof {
        lemma_has_middle(
            "\x1b[32m✓ Pod "@,
            pod@,
            if restart {
                " deleted — deployment will recreate it\x1b[0m\n"@
            } else {
                " deleted\x1b[0m\n"@
            },
            pod@,
        );
    }
    match result {
        Ok(_) => to_stdout(
            three(
                "\x1b[32m✓ Pod ",
                pod,
                if restart {
                    " deleted — deployment will recreate it\x1b[0m\n"
                } else {
                    " deleted\x1b[0m\n"
                },
            ),
            0,
        ),
        Err(e) => failed_removal(e.as_str(), restart),
    }
}

/// What is printed of a pod that could not be removed.
fn failed_removal(reason: &str, restart: bool) -> (r: Printed)
    ensures
        r.is(
            Seq::empty(),
            complaint(
                if restart {
                    CliStep::RestartPod
                } else {
                    CliStep::DeletePod
                },
            ) + reason@ + "\x1b[0m\n"@,
            1,
        ),
        has_sub(r.stderr@, reason@),
{
    let step = if restart {
        CliStep::RestartPod
    } else {
        CliStep::DeletePod
    };
    proof {
        lemma_has_middle(complaint(step), reason@, "\x1b[0m\n"@, reason@);
    }
    step_failed(step, reason)
}

/// The arguments that follow the logs of a pod.
pub open spec fn logs_args(pod: Seq<char>, namespace: Seq<char>, container: Option<Seq<char>>, tail:
    i64) -> Seq<Seq<char>> {
    let a = Seq::<Seq<char>>::empty().push("logs"@).push("-f"@).push(pod).push("-n"@).push(
        namespace,
    );
    let b = match container {
        Some(c) => a.push("-c"@).push(c),
        None => a,
    };
    b.push("--tail="@ + signed_decimal(tail as int))
}

/// The arguments that run a command in a pod.
pub open spec fn exec_args(
    pod: Seq<char>,
    namespace: Seq<char>,
    container: Option<Seq<char>>,
    cmd: Seq<char>,
) -> Seq<Seq<char>> {
    let a = Seq::<Seq<char>>::empty().push("exec"@).push("-it"@).push(pod).push("-n"@).push(
        namespace,
    );
    let b = match container {
        Some(c) => a.push("-c"@).push(c),
        None => a,
    };
    b.push("--"@).push(cmd)
}

/// The arguments that follow the logs of a pod.
pub fn run_cli_logs(pod: &str, namespace: &str, container: &Option<String>, tail: i64) -> (r: Vec<
    String,
>)
    ensures
        views(r@) == logs_args(pod@, namespace@, opt_view(*container), tail),
{
    let mut v = no_texts();
    push_text(&mut v, "logs");
    push_text(&mut v, "-f");
    push_text(&mut v, pod);
    push_text(&mut v, "-n");
    push_text(&mut v, namespace);
    if let Some(c) = container {
        push_text(&mut v, "-c");
        push_text(&mut v, c.as_str());
    }
    let mut t = "--tail=".to_owned();
    t.append(i64_text(tail).as_str());
    push_text(&mut v, t.as_str());
    v
}

/// The arguments that run a command in a pod.
pub fn run_cli_exec(pod: &str, namespace: &str, container: &Option<String>, cmd: &str) -> (r: Vec<
    String,
>)
    ensures
        views(r@) == exec_args(pod@, namespace@, opt_view(*container), cmd@),
{
    let mut v = no_texts();
    push_text(&mut v, "exec");
    push_text(&mut v, "-it");
    push_text(&mut v, pod);
    push_text(&mut v, "-n");
    push_text(&mut v, namespace);
    if let Some(c) = container {
        push_text(&mut v, "-c");
        push_text(&mut v, c.as_str());
    }
    push_text(&mut v, "--");
    push_text(&mut v, cmd);
    v
}

/// The warning about a pod in which a command is to run, where it does not run.
pub fn warn_not_running(pod: &str, status: &str) -> (r: Option<String>)
    ensures
        match r {
            Some(s) => status@ != "Running"@ && s@ == "\x1b[33m⚠ Pod "@ + pod@ + " is in "@
                + status@ + " state\x1b[0m\n"@,
            None => status@ == "Running"@,
        },
{
    if same(status, "Running") {
        None
    } else {
        let mut s = "\x1b[33m⚠ Pod ".to_owned();
        s.append(pod);
        s.append(" is in ");
        s.append(status);
        s.append(" state\x1b[0m\n");
        Some(s)
    }
}

/// The exit code of a program that was run: 1 where it has none.
pub fn exit_code(code: Option<i32>) -> (r: i32)
    ensures
        r == match code {
            Some(c) => c,
            None => 1i32,
        },
{
    match code {
        Some(c) => c,
        None => 1,
    }
}

// ---------------------------------------------------------------------------
// Captures
// ---------------------------------------------------------------------------

/// The arguments of the command that captures traffic, with what the configuration says of output
/// and image, and the time as `YYYYMMDD-HHMMSS`.
#[derive(Debug, Clone)]
pub struct CaptureArgs {
    pub pod: Option<String>,
    pub namespace: String,
    pub container: Option<String>,
    pub iface: String,
    pub filter: Option<String>,
    pub duration: Option<String>,
    pub max_bytes: Option<String>,
    pub out: Option<String>,
    pub out_dir: Option<String>,
    pub image: Option<String>,
    pub default_dir: String,
    pub default_image: String,
    pub timestamp: String,
}

/// The complaint about arguments that name no target.
pub const NO_TARGET: &'static str = "\x1b[31mEither --pod or --container is required\x1b[0m\n";

/// The complaint about a duration that is none.
pub const BAD_DURATION: &'static str =
    "\x1b[31mInvalid --duration value (try '30s', '5m', '1h')\x1b[0m\n";

/// The complaint about a size that is none.
pub const BAD_BYTES: &'static str =
    "\x1b[31mInvalid --max-bytes value (try '100M', '1G')\x1b[0m\n";

/// The first text that is there, or the second.
pub open spec fn first_or(a: Option<String>, b: Seq<char>) -> Seq<char> {
    match a {
        Some(s) => s@,
        None => b,
    }
}

/// Whether `t` is the target that the arguments name: a pod before a container.
pub open spec fn names_target(t: CaptureTarget, a: CaptureArgs) -> bool {
    match a.pod {
        Some(p) => t matches CaptureTarget::Pod { pod, namespace } && pod@ == p@ && namespace@
            == a.namespace@,
        None => t matches CaptureTarget::Container(c) && opt_view(a.container) == Some(c@),
    }
}

/// Whether `s` is the capture that the arguments ask for, given their limits.
pub open spec fn asks_for(
    s: CaptureSpec,
    a: CaptureArgs,
    duration: Option<u64>,
    bytes: Option<u64>,
) -> bool {
    &&& names_target(s.target, a)
    &&& s.output_path@ == match a.out {
        Some(o) => o@,
        None => in_directory(
            first_or(a.out_dir, a.default_dir@),
            label_for(s.target) + "-"@ + a.timestamp@ + ".pcap"@,
        ),
    }
    &&& s.image@ == first_or(a.image, a.default_image@)
    &&& s.iface@ == a.iface@
    &&& opt_view(s.filter) == opt_view(a.filter)
    &&& s.duration_ms == duration
    &&& s.max_bytes == bytes
}

/// The complaint about arguments, given the limits that they were read as.
pub open spec fn bad_capture(a: CaptureArgs, duration: Option<u64>, bytes: Option<u64>) -> Option<
    Seq<char>,
> {
    if a.pod is None && a.container is None {
        Some(NO_TARGET@)
    } else if a.duration is Some && duration is None {
        Some(BAD_DURATION@)
    } else if a.max_bytes is Some && bytes is None {
        Some(BAD_BYTES@)
    } else {
        None
    }
}

/// The capture that the arguments ask for, given the limits that they were read as; or the
/// complaint, with which the command ends with code 2.
pub fn plan_capture(a: &CaptureArgs, duration: Option<u64>, bytes: Option<u64>) -> (r: Result<
    CaptureSpec,
    Printed,
>)
    ensures
        match r {
            Ok(s) => bad_capture(*a, duration, bytes) is None && asks_for(s, *a, duration, bytes),
            Err(p) => bad_capture(*a, duration, bytes) is Some && p.is(
                Seq::empty(),
                bad_capture(*a, duration, bytes)->0,
                2,
            ),
        },
{
    let target = match &a.pod {
        Some(p) => CaptureTarget::Pod { pod: p.clone(), namespace: a.namespace.clone() },
        None => match &a.container {
            Some(c) => CaptureTarget::Container(c.clone()),
            None => {
                return Err(to_stderr(NO_TARGET.to_owned(), 2));
            },
        },
    };
    if a.duration.is_some() && duration.is_none() {
        return Err(to_stderr(BAD_DURATION.to_owned(), 2));
    }
    if a.max_bytes.is_some() && bytes.is_none() {
        return Err(to_stderr(BAD_BYTES.to_owned(), 2));
    }
    let output_path = match &a.out {
        Some(o) => o.clone(),
        None => {
            let dir = match &a.out_dir {
                Some(d) => d.as_str(),
                None => a.default_dir.as_str(),
            };
            default_output_path(dir, &target, a.timestamp.as_str())
        },
    };
    Ok(
        CaptureSpec {
            target,
            output_path,
            image: match &a.image {
                Some(i) => i.clone(),
                None => a.default_image.clone(),
            },
            iface: a.iface.clone(),
            filter: opt_clone(&a.filter),
            duration_ms: duration,
            max_bytes: bytes,
        },
    )
}

/// The time limit that the arguments give.
pub open spec fn duration_asked(a: CaptureArgs) -> Option<u64> {
    match a.duration {
        Some(d) => duration_in(d@),
        None => None,
    }
}

/// The size limit that the arguments give.
pub open spec fn bytes_asked(a: CaptureArgs) -> Option<u64> {
    match a.max_bytes {
        Some(b) => bytes_read(b@),
        None => None,
    }
}

/// The capture that the arguments ask for, or the complaint about them.
pub fn capture_from_args(a: &CaptureArgs) -> (r: Result<CaptureSpec, Printed>)
    ensures
        match r {
            Ok(s) => {
                &&& bad_capture(*a, duration_asked(*a), bytes_asked(*a)) is None
                &&& asks_for(s, *a, duration_asked(*a), bytes_asked(*a))
            },
            Err(p) => {
                &&& bad_capture(*a, duration_asked(*a), bytes_asked(*a)) is Some
                &&& p.is(
                    Seq::empty(),
                    bad_capture(*a, duration_asked(*a), bytes_asked(*a))->0,
                    2,
                )
            },
        },
{
    let duration = match &a.duration {
        Some(d) => parse_duration(d.as_str()),
        None => None,
    };
    let bytes = match &a.max_bytes {
        Some(b) => parse_bytes(b.as_str()),
        None => None,
    };
    plan_capture(a, duration, bytes)
}

/// What is printed before a capture.
pub fn announce_capture(path: &str) -> (r: String)
    ensures
        r@ == "\x1b[1mCapturing → "@ + path@ + "\x1b[0m  (Ctrl-C to stop)\n"@,
{
    three("\x1b[1mCapturing → ", path, "\x1b[0m  (Ctrl-C to stop)\n")
}

/// How a capture goes on after a message.
#[derive(Debug)]
pub enum CaptureEnd {
    /// Print this and go on.
    Going(String),
    /// It is complete: path, bytes and packets.
    Complete(String, u64, Option<u64>),
    /// It has failed.
    Failed(String),
}

/// How packets are printed while a capture goes on.
pub open spec fn packets_text(p: Option<u64>) -> Seq<char> {
    match p {
        Some(n) => decimal(n as nat) + " packets"@,
        None => "packets: --"@,
    }
}

/// How packets are printed once a capture is complete.
pub open spec fn packets_note(p: Option<u64>) -> Seq<char> {
    match p {
        Some(n) => ", "@ + decimal(n as nat) + " packets"@,
        None => Seq::empty(),
    }
}

/// How a capture goes on after a message.
pub fn follow_capture(m: &CaptureMessage) -> (r: CaptureEnd)
    ensures
        r is Failed <==> *m is Failed,
        r is Complete <==> *m is Complete,
        match *m {
            CaptureMessage::Status(l) => r matches CaptureEnd::Going(s) && s@ == "\x1b[90m"@ + l@
                + "\x1b[0m\n"@,
            CaptureMessage::Progress { bytes, packets } => r matches CaptureEnd::Going(s) && s@
                == "  \x1b[36m"@ + decimal(bytes as nat) + " bytes  "@ + packets_text(packets)
                + "\x1b[0m\n"@,
            CaptureMessage::Complete { path, bytes, packets } => r matches CaptureEnd::Complete(
                p,
                b,
                k,
            ) && p@ == path@ && b == bytes && k == packets,
            CaptureMessage::Failed(e) => r matches CaptureEnd::Failed(s) && s@ == e@,
        },
{
    match m {
        CaptureMessage::Status(l) => CaptureEnd::Going(
            three("\x1b[90m", l.as_str(), "\x1b[0m\n"),
        ),
        CaptureMessage::Progress { bytes, packets } => {
            let mut s = "  \x1b[36m".to_owned();
            s.append(u64_text(*bytes).as_str());
            s.append(" bytes  ");
            match packets {
                Some(n) => {
                    let mut t = u64_text(*n);
                    t.append(" packets");
                    s.append(t.as_str());
                },
                None => s.append("packets: --"),
            }
            s.append("\x1b[0m\n");
            CaptureEnd::Going(s)
        },
        CaptureMessage::Complete { path, bytes, packets } => CaptureEnd::Complete(
            path.clone(),
            *bytes,
            *packets,
        ),
        CaptureMessage::Failed(e) => CaptureEnd::Failed(e.clone()),
    }
}

/// What is printed once a capture is over. Where it ended without a word, its path is the one that
/// was asked for, with nothing in it.
pub fn run_cli_capture(end: &Option<CaptureEnd>, output_path: &str) -> (r: Printed)
    ensures
        r.code == 0 <==> !(*end is Some && (*end)->0 is Failed),
        match *end {
            Some(CaptureEnd::Failed(e)) => r.is(
                Seq::empty(),
                complaint(CliStep::CaptureItself) + e@ + "\x1b[0m\n"@,
                1,
            ),
            Some(CaptureEnd::Complete(p, b, k)) => r.is(
                p@ + "\n"@,
                "\x1b[32m✓ Capture saved\x1b[0m  "@ + p@ + " ("@ + decimal(b as nat) + " bytes"@
                    + packets_note(k) + ")\n"@,
                0,
            ),
            _ => r.is(
                output_path@ + "\n"@,
                "\x1b[32m✓ Capture saved\x1b[0m  "@ + output_path@ + " ("@ + decimal(0)
                    + " bytes"@ + packets_note(None) + ")\n"@,
                0,
            ),
        },
{
    match end {
        Some(CaptureEnd::Failed(e)) => step_failed(CliStep::CaptureItself, e.as_str()),
        Some(CaptureEnd::Complete(p, b, k)) => capture_saved(p.as_str(), *b, *k),
        _ => capture_saved(output_path, 0, None),
    }
}

fn capture_saved(path: &str, bytes: u64, packets: Option<u64>) -> (r: Printed)
    ensures
        r.is(
            path@ + "\n"@,
            "\x1b[32m✓ Capture saved\x1b[0m  "@ + path@ + " ("@ + decimal(bytes as nat)
                + " bytes"@ + packets_note(packets) + ")\n"@,
            0,
        ),
{
    let mut s = "\x1b[32m✓ Capture saved\x1b[0m  ".to_owned();
    s.append(path);
    s.append(" (");
    s.append(u64_text(bytes).as_str());
    s.append(" bytes");
    let note = match packets {
        Some(n) => {
            let t = u64_text(n);
            three(", ", t.as_str(), " packets")
        },
        None => {
            let t = String::new();
            assert(t@ =~= Seq::<char>::empty());
            t
        },
    };
    s.append(note.as_str());
    s.append(")\n");
    let mut out = path.to_owned();
    out.append("\n");
    Printed { stdout: out, stderr: s, code: 0 }
}

/// The program that opens a capture.
pub fn opener(macos: bool) -> (r: &'static str)
    ensures
        r@ == if macos {
            "open"@
        } else {
            "xdg-open"@
        },
{
    if macos {
        "open"
    } else {
        "xdg-open"
    }
}

/// The warning about a program that could not be started.
pub fn warn_not_opened(tool: &str, reason: &str) -> (r: String)
    ensures
        r@ == "\x1b[33mWarning: failed to launch "@ + tool@ + ": "@ + reason@ + "\x1b[0m\n"@,
{
    let mut s = "\x1b[33mWarning: failed to launch ".to_owned();
    s.append(tool);
    s.append(": ");
    s.append(reason);
    s.append("\x1b[0m\n");
    s
}

// ---------------------------------------------------------------------------
// Laws
// ---------------------------------------------------------------------------

/// A command for a suite ends well exactly when the suite ended and no test failed.
pub proof fn law_suite_code(rs: Seq<ResultView>)
    ensures
        tally(rs).1 == 0 <==> forall|i: int|
            0 <= i < rs.len() ==> !((#[trigger] rs[i]).status is Failed),
        tally(rs).0 + tally(rs).1 + tally(rs).2 <= rs.len(),
    decreases rs.len(),
{
    if rs.len() > 0 {
        let d = rs.drop_last();
        law_suite_code(d);
        assert(forall|i: int| 0 <= i < d.len() ==> d[i] == rs[i]);
        if forall|i: int| 0 <= i < rs.len() ==> !((#[trigger] rs[i]).status is Failed) {
            assert(!(rs[rs.len() - 1].status is Failed));
        } else {
            let i = choose|i: int| 0 <= i < rs.len() && (#[trigger] rs[i]).status is Failed;
            if i < d.len() {
                assert(d[i].status is Failed);
            }
        }
    }
}

proof fn lemma_printed_grows(st: PrinterState, rs: Seq<ResultView>, n: int)
    requires
        0 <= n <= rs.len(),
    ensures
        after_results(st, rs, n).printed >= st.printed,
    decreases n,
{
    if n > 0 {
        lemma_printed_grows(st, rs, n - 1);
    }
}

/// What was printed for good is not printed again: a result before the mark prints nothing.
pub proof fn law_results_are_printed_once(st: PrinterState, rs: Seq<ResultView>, i: int)
    requires
        0 <= i < rs.len(),
        i < st.printed,
    ensures
        result_text(after_results(st, rs, i), i, rs[i]) == Seq::<char>::empty(),
        after_result(after_results(st, rs, i), i, rs[i]) == after_results(st, rs, i),
{
    lemma_printed_grows(st, rs, i);
}

/// An operation is said to be done, with the code of success, exactly where it is; else an error tells
/// why.
pub proof fn law_only_done_is_success(outcome: ActionOutcome)
    ensures
        action_end(outcome).1 == 0 <==> outcome is Done,
        action_end(outcome).0.0 == OutputType::Success <==> outcome is Done,
        action_end(outcome).0.0 == OutputType::Error <==> !(outcome is Done),
        outcome matches ActionOutcome::Failed(e) ==> has_sub(action_end(outcome).0.1, e@),
        outcome matches ActionOutcome::Panicked(e) ==> has_sub(action_end(outcome).0.1, e@),
{
    let none = Seq::<char>::empty();
    if let ActionOutcome::Failed(e) = outcome {
        lemma_has_middle("Error: "@, e@, none, e@);
        assert("Error: "@ + e@ + none =~= "Error: "@ + e@);
    }
    if let ActionOutcome::Panicked(e) = outcome {
        lemma_has_middle("Task panicked: "@, e@, none, e@);
        assert("Task panicked: "@ + e@ + none =~= "Task panicked: "@ + e@);
    }
}

/// Each result counts once, as what it is, wherever it stands; one that is not decided does not count.
pub proof fn law_results_are_counted(rs: Seq<ResultView>, i: int)
    requires
        0 <= i < rs.len(),
    ensures
        ({
            let all = tally(rs);
            let others = tally(rs.remove(i));
            let s = rs[i].status;
            &&& all.0 == others.0 + if s is Passed {
                1nat
            } else {
                0nat
            }
            &&& all.1 == others.1 + if s is Failed {
                1nat
            } else {
                0nat
            }
            &&& all.2 == others.2 + if s is Skipped {
                1nat
            } else {
                0nat
            }
        }),
        tally(Seq::<ResultView>::empty()) == (0nat, 0nat, 0nat),
    decreases rs.len(),
{
    if i == rs.len() - 1 {
        assert(rs.remove(i) =~= rs.drop_last());
    } else {
        law_results_are_counted(rs.drop_last(), i);
        assert(rs.remove(i).drop_last() =~= rs.drop_last().remove(i));
        assert(rs.remove(i).last() == rs.last());
        assert(rs.drop_last()[i] == rs[i]);
    }
}

/// A suite ends with the code of success exactly where no test failed, and its summary names how many
/// passed, of how many, and how many were skipped or failed.
pub proof fn law_summary_tells_the_counts(k: SuiteKind, rs: Seq<ResultView>)
    ensures
        suite_printed(k, rs).1 == 0 <==> forall|i: int|
            0 <= i < rs.len() ==> !((#[trigger] rs[i]).status is Failed),
        suite_printed(k, rs).1 == 0 || suite_printed(k, rs).1 == 1,
        has_sub(suite_printed(k, rs).0, decimal(tally(rs).0) + "/"@ + decimal(rs.len())),
        has_sub(suite_printed(k, rs).0, decimal(tally(rs).2) + " skipped"@),
        tally(rs).1 > 0 ==> has_sub(suite_printed(k, rs).0, decimal(tally(rs).1) + " failed"@),
{
    law_suite_code(rs);
    let t = tally(rs);
    let (p, n, f, z) = (decimal(t.0), decimal(rs.len()), decimal(t.1), decimal(t.2));
    let x = p + "/"@ + n;
    let s = suite_printed(k, rs).0;
    reveal_strlit(" skipped)\x1b[0m\n");
    reveal_strlit(" skipped\x1b[0m\n");
    reveal_strlit(" failed, ");
    reveal_strlit(" failed");
    reveal_strlit(" skipped");
    assert(" skipped)\x1b[0m\n"@ =~= " skipped"@ + ")\x1b[0m\n"@) by {
        reveal_strlit(")\x1b[0m\n");
    }
    assert(" skipped\x1b[0m\n"@ =~= " skipped"@ + "\x1b[0m\n"@) by {
        reveal_strlit("\x1b[0m\n");
    }
    assert(" failed, "@ =~= " failed"@ + ", "@) by {
        reveal_strlit(", ");
    }
    let y = z + " skipped"@;
    if t.1 == 0 {
        match k {
            SuiteKind::Diagnostics => {
                let a = "\n\x1b[32m✓ All tests passed ("@;
                assert(s =~= a + x + (", "@ + z + " skipped)\x1b[0m\n"@));
                lemma_has_middle(a, x, ", "@ + z + " skipped)\x1b[0m\n"@, x);
                assert(s =~= (a + x + ", "@) + y + ")\x1b[0m\n"@);
                lemma_has_middle(a + x + ", "@, y, ")\x1b[0m\n"@, y);
            },
            SuiteKind::Preflight => {
                let a = "\n\x1b[32m✓ Ready to start ("@;
                assert(s =~= a + x + (" passed, "@ + z + " skipped)\x1b[0m\n"@));
                lemma_has_middle(a, x, " passed, "@ + z + " skipped)\x1b[0m\n"@, x);
                assert(s =~= (a + x + " passed, "@) + y + ")\x1b[0m\n"@);
                lemma_has_middle(a + x + " passed, "@, y, ")\x1b[0m\n"@, y);
            },
        }
    } else {
        let a = "\n\x1b[31m✗ "@;
        let w = f + " failed"@;
        let rest = " passed, "@ + f + " failed, "@ + z + " skipped\x1b[0m\n"@;
        assert(s =~= a + x + rest);
        lemma_has_middle(a, x, rest, x);
        assert(s =~= (a + x + " passed, "@ + f + " failed, "@) + y + "\x1b[0m\n"@);
        lemma_has_middle(a + x + " passed, "@ + f + " failed, "@, y, "\x1b[0m\n"@, y);
        assert(s =~= (a + x + " passed, "@) + w + (", "@ + z + " skipped\x1b[0m\n"@));
        lemma_has_middle(a + x + " passed, "@, w, ", "@ + z + " skipped\x1b[0m\n"@, w);
    }
}

/// A test that is decided is printed by its name once its turn has come, a failed one with its reason,
/// and it is then printed for good.
pub proof fn law_decided_tests_are_printed(st: PrinterState, i: int, r: ResultView)
    requires
        st.printed <= i,
        r.status is Passed || r.status is Failed || r.status is Skipped,
    ensures
        has_sub(result_text(st, i, r), r.name),
        r.status matches StatusView::Failed(e) ==> has_sub(result_text(st, i, r), e),
        r.status matches StatusView::Skipped(e) ==> has_sub(result_text(st, i, r), e),
        after_result(st, i, r).printed == i + 1,
{
    match r.status {
        StatusView::Passed => {
            let a = reopened(st) + "  \x1b[32m✓\x1b[0m "@;
            lemma_has_in(r.name, a, duration_note(r.duration) + "\n"@);
            assert(result_text(st, i, r) =~= a + r.name + (duration_note(r.duration) + "\n"@));
        },
        StatusView::Failed(e) => {
            let a = reopened(st) + "  \x1b[31m✗\x1b[0m "@;
            let b = duration_note(r.duration) + "\n    \x1b[31m"@;
            let c = "\x1b[0m\n"@;
            lemma_has_in(r.name, a, b + e + c);
            assert(result_text(st, i, r) =~= a + r.name + (b + e + c));
            lemma_has_in(e, a + r.name + b, c);
            assert(result_text(st, i, r) =~= (a + r.name + b) + e + c);
        },
        StatusView::Skipped(e) => {
            let a = new_category(st, r.category) + "  \x1b[90m⊘ "@;
            let b = " (skipped: "@;
            let c = ")\x1b[0m\n"@;
            lemma_has_in(r.name, a, b + e + c);
            assert(result_text(st, i, r) =~= a + r.name + (b + e + c));
            lemma_has_in(e, a + r.name + b, c);
            assert(result_text(st, i, r) =~= (a + r.name + b) + e + c);
        },
        _ => {},
    }
}

/// The command for an update of the hosts file ends well exactly where the file is up to date; else
/// every line that is to be added by hand is printed.
pub proof fn law_missing_lines_are_printed(result: HostsUpdateResult, line: Seq<char>)
    ensures
        update_printed(result).1 == 0 <==> result is NoUpdateNeeded || result is WrittenDirectly,
        result matches HostsUpdateResult::ReadOnly { entries } ==> (views(entries@).contains(line)
            ==> has_sub(update_printed(result).0, line)),
        result matches HostsUpdateResult::NeedsSudo { content, count } ==> (lines(content@).contains(
            line,
        ) && has_sub(line, "# k3dev-ingress"@) ==> has_sub(update_printed(result).0, line)),
{
    if let HostsUpdateResult::ReadOnly { entries } = result {
        lemma_indented(views(entries@), line);
        lemma_has_in(
            line,
            "\x1b[33m⚠ /etc/hosts is read-only. Add these entries manually:\x1b[0m\n\n"@,
            indented(views(entries@)),
        );
    }
    if let HostsUpdateResult::NeedsSudo { content, count } = result {
        let ls = lines(content@);
        lemma_marked(ls, line);
        lemma_indented(marked(ls), line);
        lemma_has_in(
            line,
            "\x1b[33m⚠ Need elevated privileges to write "@ + decimal(count as nat)
                + " entries to /etc/hosts\x1b[0m\nRun with sudo or manually add the following:\n\n"@,
            indented(marked(ls)),
        );
    }
}

proof fn lemma_indented(ls: Seq<Seq<char>>, line: Seq<char>)
    ensures
        ls.contains(line) ==> has_sub(indented(ls), line),
    decreases ls.len(),
{
    if ls.len() > 0 {
        let d = ls.drop_last();
        lemma_indented(d, line);
        let last = "  "@ + ls.last() + "\n"@;
        lemma_has_in(line, indented(d), last);
        lemma_has_in(ls.last(), "  "@, "\n"@);
        if ls.contains(line) && line != ls.last() {
            let i = choose|i: int| 0 <= i < ls.len() && ls[i] == line;
            assert(d[i] == line);
        }
    }
}

proof fn lemma_marked(ls: Seq<Seq<char>>, line: Seq<char>)
    ensures
        marked(ls).contains(line) <==> ls.contains(line) && has_sub(line, HOSTS_MARKER@),
    decreases ls.len(),
{
    if ls.len() > 0 {
        let d = ls.drop_last();
        let m = marked(d);
        lemma_marked(d, line);
        assert(ls[ls.len() - 1] == ls.last());
        assert(m.push(ls.last())[m.len() as int] == ls.last());
        if m.contains(line) {
            let i = choose|i: int| 0 <= i < m.len() && m[i] == line;
            assert(m.push(ls.last())[i] == line);
        }
        if m.push(ls.last()).contains(line) && line != ls.last() {
            let i = choose|i: int| 0 <= i < m.push(ls.last()).len() && m.push(ls.last())[i] == line;
            assert(m[i] == line);
        }
        if d.contains(line) {
            let i = choose|i: int| 0 <= i < d.len() && d[i] == line;
            assert(ls[i] == line);
        }
        if ls.contains(line) && line != ls.last() {
            let i = choose|i: int| 0 <= i < ls.len() && ls[i] == line;
            assert(d[i] == line);
        }
    }
}

/// Whether an argument follows an option somewhere.
pub open spec fn given(args: Seq<Seq<char>>, option: Seq<char>, value: Seq<char>) -> bool {
    exists|i: int| 0 <= i < args.len() - 1 && #[trigger] args[i] == option && args[i + 1] == value
}

/// The arguments for logs and for commands name the pod, its namespace and, where one is chosen, the
/// container; the command comes last, behind what ends the options, and the logs are cut to what was
/// asked for.
pub proof fn law_arguments_name_the_pod(
    pod: Seq<char>,
    namespace: Seq<char>,
    container: Option<Seq<char>>,
    tail: i64,
    cmd: Seq<char>,
)
    ensures
        logs_args(pod, namespace, container, tail)[0] == "logs"@,
        logs_args(pod, namespace, container, tail)[2] == pod,
        given(logs_args(pod, namespace, container, tail), "-n"@, namespace),
        container matches Some(c) ==> given(logs_args(pod, namespace, container, tail), "-c"@, c),
        logs_args(pod, namespace, container, tail).last() == "--tail="@ + signed_decimal(
            tail as int,
        ),
        exec_args(pod, namespace, container, cmd)[0] == "exec"@,
        exec_args(pod, namespace, container, cmd)[2] == pod,
        given(exec_args(pod, namespace, container, cmd), "-n"@, namespace),
        container matches Some(c) ==> given(exec_args(pod, namespace, container, cmd), "-c"@, c),
        given(exec_args(pod, namespace, container, cmd), "--"@, cmd),
        exec_args(pod, namespace, container, cmd).last() == cmd,
{
    let l = logs_args(pod, namespace, container, tail);
    let e = exec_args(pod, namespace, container, cmd);
    assert(l[3] == "-n"@ && l[4] == namespace);
    assert(e[3] == "-n"@ && e[4] == namespace);
    if let Some(c) = container {
        assert(l[5] == "-c"@ && l[6] == c);
        assert(e[5] == "-c"@ && e[6] == c);
        assert(e[7] == "--"@ && e[8] == cmd);
    } else {
        assert(e[5] == "--"@ && e[6] == cmd);
    }
}

/// Every pod has a row in the list, and the row names it, its namespace and its status.
pub proof fn law_every_pod_has_a_row(v: Seq<ListedPod>, i: int)
    requires
        0 <= i < v.len(),
    ensures
        has_sub(pod_table(v), pod_line(v[i])),
        has_sub(pod_line(v[i]), v[i].name@),
        has_sub(pod_line(v[i]), v[i].namespace@),
        has_sub(pod_line(v[i]), v[i].status@),
    decreases v.len(),
{
    let d = v.drop_last();
    lemma_row(v[i]);
    lemma_has_in(pod_line(v[i]), pod_table(d), pod_line(v.last()));
    if i < d.len() {
        law_every_pod_has_a_row(d, i);
    }
}

/// What a text holds it still holds with more behind it, part by part.
proof fn lemma_has_in_six(
    pat: Seq<char>,
    s: Seq<char>,
    a: Seq<char>,
    b: Seq<char>,
    c: Seq<char>,
    d: Seq<char>,
    e: Seq<char>,
    f: Seq<char>,
)
    requires
        has_sub(s, pat),
    ensures
        has_sub(s + a + b + c + d + e + f, pat),
{
    lemma_has_in(pat, s, a);
    lemma_has_in(pat, s + a, b);
    lemma_has_in(pat, s + a + b, c);
    lemma_has_in(pat, s + a + b + c, d);
    lemma_has_in(pat, s + a + b + c + d, e);
    lemma_has_in(pat, s + a + b + c + d + e, f);
}

proof fn lemma_row(p: ListedPod)
    ensures
        has_sub(pod_line(p), p.name@),
        has_sub(pod_line(p), p.namespace@),
        has_sub(pod_line(p), p.status@),
{
    let (a, b, c) = (padded(p.name@, 40), padded(p.namespace@, 16), padded(p.status@, 10));
    lemma_padded_has(p.name@, 40);
    lemma_padded_has(p.namespace@, 16);
    lemma_padded_has(p.status@, 10);
    let ready = if p.ready {
        "\x1b[32m"@
    } else {
        "\x1b[33m"@
    };
    let word = padded(
        if p.ready {
            "Yes"@
        } else {
            "No"@
        },
        8,
    );
    let ip = padded(
        match p.ip {
            Some(x) => x@,
            None => "-"@,
        },
        16,
    );
    let color = status_color(p.status@);
    let x = a + " "@ + b + " "@ + color;
    lemma_has_in(p.name@, a, " "@);
    lemma_has_in(p.name@, a + " "@, b);
    lemma_has_in(p.namespace@, a + " "@, b);
    lemma_has_in(p.name@, a + " "@ + b, " "@);
    lemma_has_in(p.namespace@, a + " "@ + b, " "@);
    lemma_has_in(p.name@, a + " "@ + b + " "@, color);
    lemma_has_in(p.namespace@, a + " "@ + b + " "@, color);
    lemma_has_in(p.name@, x, c);
    lemma_has_in(p.namespace@, x, c);
    lemma_has_in(p.status@, x, c);
    lemma_has_in_six(p.name@, x + c, "\x1b[0m "@, ready, word, "\x1b[0m "@, ip, "\n"@);
    lemma_has_in_six(p.namespace@, x + c, "\x1b[0m "@, ready, word, "\x1b[0m "@, ip, "\n"@);
    lemma_has_in_six(p.status@, x + c, "\x1b[0m "@, ready, word, "\x1b[0m "@, ip, "\n"@);
}

proof fn lemma_padded_has(s: Seq<char>, n: nat)
    ensures
        has_sub(padded(s, n), s),
{
    law_padding_keeps_the_text(s, n);
    assert(occurs_at(padded(s, n), s, 0));
}

/// Arguments for a capture are in order exactly where they name a target and the limits that they
/// give can be read.
pub proof fn law_captures_need_a_target(a: CaptureArgs, duration: Option<u64>, bytes: Option<u64>)
    ensures
        bad_capture(a, duration, bytes) is None <==> (a.pod is Some || a.container is Some) && (
        a.duration is Some ==> duration is Some) && (a.max_bytes is Some ==> bytes is Some),
{
}

/// What is asked for of a capture is what it does: the target, the network interface, the filter and
/// the limits are those of the arguments, and the output goes where it is asked to.
pub proof fn law_captures_do_what_is_asked(
    s: CaptureSpec,
    a: CaptureArgs,
    duration: Option<u64>,
    bytes: Option<u64>,
)
    requires
        asks_for(s, a, duration, bytes),
    ensures
        a.pod matches Some(p) ==> (s.target matches CaptureTarget::Pod { pod, namespace } && pod@
            == p@ && namespace@ == a.namespace@),
        a.pod is None ==> (s.target matches CaptureTarget::Container(c) && opt_view(a.container)
            == Some(c@)),
        a.out matches Some(o) ==> s.output_path@ == o@,
        a.image matches Some(i) ==> s.image@ == i@,
        a.image is None ==> s.image@ == a.default_image@,
        s.iface@ == a.iface@,
        opt_view(s.filter) == opt_view(a.filter),
        s.duration_ms == duration,
        s.max_bytes == bytes,
{
}

/// Each result is printed in its turn.
pub proof fn law_every_result_is_printed(st: PrinterState, rs: Seq<ResultView>, n: int, i: int)
    requires
        0 <= i < n <= rs.len(),
    ensures
        has_sub(results_text(st, rs, n), result_text(after_results(st, rs, i), i, rs[i])),
    decreases n,
{
    let x = result_text(after_results(st, rs, i), i, rs[i]);
    let a = results_text(st, rs, n - 1);
    let b = result_text(after_results(st, rs, n - 1), n - 1, rs[n - 1]);
    lemma_has_in(x, a, b);
    lemma_has_in(x, x, x);
    if i < n - 1 {
        law_every_result_is_printed(st, rs, n - 1, i);
    }
}

/// Lines that are meant differently have different colours.
pub proof fn law_colours_tell_the_kind(a: OutputType, b: OutputType)
    ensures
        color_of(a) == color_of(b) <==> a == b,
        color_of(OutputType::Success) == "\x1b[32m"@,
        color_of(OutputType::Error) == "\x1b[31m"@,
        color_of(OutputType::Warning) == "\x1b[33m"@,
        color_of(OutputType::Info) == "\x1b[0m"@,
{
    reveal_strlit("\x1b[0m");
    reveal_strlit("\x1b[31m");
    reveal_strlit("\x1b[32m");
    reveal_strlit("\x1b[33m");
    assert("\x1b[31m"@[3] == '1' && "\x1b[32m"@[3] == '2' && "\x1b[33m"@[3] == '3');
    assert("\x1b[0m"@.len() == 4);
}

/// The limits of a capture are those that the arguments give, read from their texts.
pub proof fn law_limits_are_those_given(a: CaptureArgs)
    ensures
        a.duration is None ==> duration_asked(a) is None,
        a.max_bytes is None ==> bytes_asked(a) is None,
        a.duration is Some ==> duration_asked(a) == duration_in(a.duration->0@),
        a.max_bytes is Some ==> bytes_asked(a) == bytes_read(a.max_bytes->0@),
{
}

/// The number of packets is told as it is, where it is known.
pub proof fn law_packets_are_told(n: u64)
    ensures
        has_sub(packets_text(Some(n)), decimal(n as nat)),
        has_sub(packets_note(Some(n)), decimal(n as nat)),
        packets_note(None).len() == 0,
{
    let d = decimal(n as nat);
    lemma_has_in(d, d, d);
    lemma_has_in(d, d, " packets"@);
    lemma_has_in(d, ", "@, d);
    lemma_has_in(d, ", "@ + d, " packets"@);
}

/// A suite that did not end is told by its name.
pub proof fn law_incomplete_suites_are_told_apart(a: SuiteKind, b: SuiteKind)
    ensures
        incomplete(a) == incomplete(b) <==> a == b,
        incomplete(SuiteKind::Diagnostics) == "Diagnostics did not complete\n"@,
{
    reveal_strlit("Diagnostics did not complete\n");
    reveal_strlit("Preflight checks did not complete\n");
    assert("Diagnostics did not complete\n"@[0] == 'D');
    assert("Preflight checks did not complete\n"@[0] == 'P');
}

/// A step that failed is named by what was tried.
pub proof fn law_failed_steps_have_their_names(s: CliStep)
    ensures
        s == CliStep::Connect ==> complaint(s) == "\x1b[31mFailed to connect to cluster: "@,
        s == CliStep::ListNamespaces ==> complaint(s) == "\x1b[31mFailed to list namespaces: "@,
        s == CliStep::GetLogs ==> complaint(s) == "\x1b[31mFailed to get logs: "@,
        s == CliStep::Describe ==> complaint(s) == "\x1b[31mFailed to describe pod: "@,
        s == CliStep::FindPod ==> complaint(s) == "\x1b[31mPod not found: "@,
        s == CliStep::DeletePod ==> complaint(s) == "\x1b[31m✗ Failed to delete pod: "@,
        s == CliStep::RestartPod ==> complaint(s) == "\x1b[31m✗ Failed to restart pod: "@,
        s == CliStep::ConnectDocker ==> complaint(s) == "\x1b[31mFailed to connect to Docker: "@,
        s == CliStep::StartCapture ==> complaint(s) == "\x1b[31mFailed to start capture: "@,
        s == CliStep::CaptureItself ==> complaint(s) == "\x1b[31mCapture failed: "@,
{
}

/// The colour of a pod tells what it does: green where it runs, red where something is wrong.
pub proof fn law_pods_have_their_colours(s: Seq<char>)
    ensures
        s == "Running"@ ==> status_color(s) == "\x1b[32m"@,
        s == "Succeeded"@ ==> status_color(s) == "\x1b[36m"@,
        s == "Pending"@ || s == "ContainerCreating"@ ==> status_color(s) == "\x1b[33m"@,
        s != "Running"@ && s != "Succeeded"@ && s != "Pending"@ && s != "ContainerCreating"@
            ==> status_color(s) == "\x1b[31m"@,
{
    reveal_strlit("Running");
    reveal_strlit("Succeeded");
    reveal_strlit("Pending");
    reveal_strlit("ContainerCreating");
    assert("Running"@[0] == 'R' && "Pending"@[0] == 'P');
    assert("Succeeded"@.len() == 9 && "ContainerCreating"@.len() == 17 && "Running"@.len() == 7
        && "Pending"@.len() == 7);
}

/// A duration of whole seconds is told as such, with a zero behind the point; without one nothing is.
pub proof fn law_durations_are_told(s: u64)
    requires
        s < 1_000_000_000,
    ensures
        duration_note(Some((s * 1_000_000_000) as u64)) == " \x1b[90m("@ + decimal(s as nat) + "."@
            + decimal(0) + "s)\x1b[0m"@,
        duration_note(None).len() == 0,
{
    crate::elapsed::law_whole_seconds_are_exact(s as nat);
}

} // verus!
