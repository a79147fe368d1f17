//! Setting up a cluster: waiting for it, installing programs in it, and gaining access to it.

use vstd::prelude::*;
use crate::machine::{
    done, fail, go, good, no_lines, reason, silent, Event, Next, NextView, Step, StepView, Trouble,
    TroubleView,
};
use crate::number::{decimal, u64_text};
use crate::output::{info, line_views, say, warning, LineView, OutputLine, OutputType};
use crate::text::{
    begins, contains, ends, has_sub, law_replacing_goes_left_to_right, lemma_has_in, no_texts,
    occurs_at, push_text, replace, replaced, sub_index, views,
};

verus! {

// ---------------------------------------------------------------------------
// Waiting for the API
// ---------------------------------------------------------------------------

/// How often the cluster is asked whether it answers.
pub const API_ATTEMPTS: u32 = 40;

/// A wait for the cluster: the number of questions asked before, and the pause that follows the
/// next.
#[derive(Debug, Clone, Copy, PartialEq, Eq, Structural)]
pub struct ApiWait {
    pub attempt: u32,
    pub interval_ms: u64,
}

/// What follows an answer.
#[derive(Debug, Clone, Copy, PartialEq, Eq, Structural)]
pub enum ApiNext {
    /// The cluster answers.
    Up,
    /// Pause for so many milliseconds, then ask again.
    Retry(u64, ApiWait),
    /// Pause for so many milliseconds, then give up.
    GiveUp(u64),
}

/// The pause after the `n`th question in milliseconds: it doubles up to two seconds.
pub open spec fn pause_after(n: nat) -> nat
    decreases n,
{
    if n == 0 {
        100
    } else if 2 * pause_after((n - 1) as nat) < 2000 {
        2 * pause_after((n - 1) as nat)
    } else {
        2000
    }
}

/// All pauses before the `n`th question together.
pub open spec fn pauses_before(n: nat) -> nat
    decreases n,
{
    if n == 0 {
        0
    } else {
        pauses_before((n - 1) as nat) + pause_after((n - 1) as nat)
    }
}

/// Whether an answer shows that the cluster is up: success, or a demand for credentials.
pub open spec fn shows_api(status: Option<u16>) -> bool {
    status matches Some(s) && (200 <= s <= 299 || s == 401)
}

impl ApiWait {
    /// Whether this is a state of a wait.
    pub open spec fn wf(&self) -> bool {
        self.attempt < API_ATTEMPTS && self.interval_ms == pause_after(self.attempt as nat)
    }

    /// The state after another question.
    pub open spec fn advanced(&self) -> ApiWait {
        ApiWait {
            attempt: (self.attempt + 1) as u32,
            interval_ms: pause_after((self.attempt + 1) as nat) as u64,
        }
    }

    /// What follows an answer.
    pub open spec fn after(&self, status: Option<u16>) -> ApiNext {
        if shows_api(status) {
            ApiNext::Up
        } else if self.attempt + 1 < API_ATTEMPTS {
            ApiNext::Retry(self.interval_ms, self.advanced())
        } else {
            ApiNext::GiveUp(self.interval_ms)
        }
    }

    /// A wait that begins.
    pub fn new() -> (r: ApiWait)
        ensures
            r.wf(),
            r.attempt == 0,
    {
        ApiWait { attempt: 0, interval_ms: 100 }
    }

    /// A wait that begins, and what is said of it.
    pub fn begin() -> (r: (ApiWait, OutputLine))
        ensures
            r.0.wf(),
            r.0.attempt == 0,
            r.1@ == info("Waiting for k3s API..."@),
    {
        (ApiWait::new(), OutputLine::info("Waiting for k3s API..."))
    }

    /// What follows an answer, and what is said: progress, where none was reported for five
    /// seconds. `elapsed` is how long the wait has taken.
    pub fn wait_for_api(&self, status: Option<u16>, since_report_ms: u128, elapsed_secs: u64) -> (r:
        (ApiNext, Option<OutputLine>))
        requires
            self.wf(),
        ensures
            r.0 == self.after(status),
            r.0 matches ApiNext::Retry(_, w) ==> w.wf(),
            match r.1 {
                Some(l) => !shows_api(status) && since_report_ms >= 5000 && l@ == info(
                    "Still waiting for API... ("@ + decimal(elapsed_secs as nat) + "s elapsed)"@,
                ),
                None => shows_api(status) || since_report_ms < 5000,
            },
    {
        if let Some(s) = status {
            if (200 <= s && s <= 299) || s == 401 {
                return (ApiNext::Up, None);
            }
        }
        let line = if since_report_ms >= 5000 {
            let mut t = "Still waiting for API... (".to_owned();
            t.append(u64_text(elapsed_secs).as_str());
            t.append("s elapsed)");
            Some(OutputLine::info(t.as_str()))
        } else {
            None
        };
        proof {
            lemma_pauses(self.attempt as nat);
        }
        if self.attempt + 1 < API_ATTEMPTS {
            let interval: u64 = if self.interval_ms * 2 < 2000 {
                self.interval_ms * 2
            } else {
                2000
            };
            let next = ApiWait { attempt: self.attempt + 1, interval_ms: interval };
            (ApiNext::Retry(self.interval_ms, next), line)
        } else {
            (ApiNext::GiveUp(self.interval_ms), line)
        }
    }
}

/// The address that is asked.
pub fn api_url(host: &Option<String>) -> (r: String)
    ensures
        r@ == "https://"@ + (match *host {
            Some(h) => h@,
            None => "127.0.0.1"@,
        }) + ":6443/healthz"@,
{
    let mut s = "https://".to_owned();
    match host {
        Some(h) => s.append(h.as_str()),
        None => s.append("127.0.0.1"),
    }
    s.append(":6443/healthz");
    s
}

/// The message of a wait that was given up.
pub const API_TIMEOUT: &'static str = "Timeout waiting for k3s API";

proof fn lemma_pauses(n: nat)
    ensures
        100 <= pause_after(n) <= 2000,
    decreases n,
{
    if n > 0 {
        lemma_pauses((n - 1) as nat);
    }
}

/// The pauses never grow shorter, and none is longer than two seconds.
pub proof fn law_pauses_grow(n: nat)
    ensures
        pause_after(n) <= pause_after(n + 1) <= 2000,
{
    lemma_pauses(n);
    lemma_pauses(n + 1);
}

/// A wait that fails asks forty times and pauses for 73.1 seconds in all.
pub proof fn law_wait_is_bounded(w: ApiWait, status: Option<u16>)
    requires
        w.wf(),
        !shows_api(status),
    ensures
        w.after(status) matches ApiNext::Retry(ms, v) ==> v.attempt == w.attempt + 1 && ms
            == pauses_before(v.attempt as nat) - pauses_before(w.attempt as nat),
        w.after(status) is GiveUp <==> w.attempt == 39,
        pauses_before(40) == 73100,
{
    assert(pauses_before((w.attempt + 1) as nat) == pauses_before(w.attempt as nat) + pause_after(
        w.attempt as nat,
    ));
    assert(pauses_before(40) == 73100) by {
        reveal_with_fuel(pause_after, 7);
        lemma_long_pauses(5, 40);
        reveal_with_fuel(pauses_before, 6);
        assert(pauses_before(5) == 3100);
    }
}

proof fn lemma_long_pauses(m: nat, n: nat)
    requires
        5 <= m <= n,
    ensures
        pause_after(n) == 2000,
        pauses_before(n) == pauses_before(m) + 2000 * (n - m),
    decreases n,
{
    if n == 5 {
        reveal_with_fuel(pause_after, 6);
    } else if n > m {
        lemma_long_pauses(m, (n - 1) as nat);
    } else {
        lemma_long_pauses(5, (n - 1) as nat);
    }
}

// ---------------------------------------------------------------------------
// Installing a program
// ---------------------------------------------------------------------------

/// An action on the way to an installed program.
#[derive(Debug, Clone, Copy, PartialEq, Eq, Structural)]
pub enum InstallAction {
    /// Write the program to a temporary file.
    WriteFile,
    /// Make the directory in the container.
    MakeDirectory,
    /// Copy the file into the container: `No` says that the copying program failed.
    CopyFile,
    /// Remove the temporary file; it says whether it was copied.
    RemoveFile(bool),
    /// Make the program executable.
    MakeExecutable,
}

/// The step of an installation that follows an action; `stderr` is what the copying program said.
pub open spec fn install_next(
    a: InstallAction,
    ev: Event,
    name: Seq<char>,
    stderr: Seq<char>,
) -> StepView<InstallAction, ()> {
    match a {
        InstallAction::WriteFile => if good(ev) {
            (silent(), NextView::Go(InstallAction::MakeDirectory))
        } else {
            (silent(), NextView::Fail(reason(ev)))
        },
        InstallAction::MakeDirectory => (silent(), NextView::Go(InstallAction::CopyFile)),
        InstallAction::CopyFile => match ev {
            Event::Failed(e) => (silent(), NextView::Fail("docker cp failed: "@ + e@)),
            _ => (silent(), NextView::Go(InstallAction::RemoveFile(good(ev)))),
        },
        InstallAction::RemoveFile(copied) => if copied {
            (silent(), NextView::Go(InstallAction::MakeExecutable))
        } else {
            (silent(), NextView::Fail("docker cp "@ + name + " failed: "@ + stderr))
        },
        InstallAction::MakeExecutable => if good(ev) {
            (silent(), NextView::Done(()))
        } else {
            (silent(), NextView::Fail(reason(ev)))
        },
    }
}

/// The step of an installation that follows an action.
pub fn install_binary_via_docker_cp(a: InstallAction, ev: &Event, name: &str, stderr: &str) -> (r:
    Step<InstallAction, ()>)
    ensures
        r@ == install_next(a, *ev, name@, stderr@),
{
    match a {
        InstallAction::WriteFile => if ev.is_good() {
            go(InstallAction::MakeDirectory)
        } else {
            fail(ev)
        },
        InstallAction::MakeDirectory => go(InstallAction::CopyFile),
        InstallAction::CopyFile => match ev {
            Event::Failed(e) => {
                let mut s = "docker cp failed: ".to_owned();
                s.append(e.as_str());
                Step { lines: no_lines(), next: Next::Fail(s) }
            },
            _ => go(InstallAction::RemoveFile(ev.is_good())),
        },
        InstallAction::RemoveFile(copied) => if copied {
            go(InstallAction::MakeExecutable)
        } else {
            let mut s = "docker cp ".to_owned();
            s.append(name);
            s.append(" failed: ");
            s.append(stderr);
            Step { lines: no_lines(), next: Next::Fail(s) }
        },
        InstallAction::MakeExecutable => if ev.is_good() {
            done(())
        } else {
            fail(ev)
        },
    }
}

/// Once the copying program has run, the temporary file is removed, whatever came of it.
pub proof fn law_temporary_file_is_removed(ev: Event, name: Seq<char>, stderr: Seq<char>)
    requires
        !(ev is Failed),
    ensures
        install_next(InstallAction::CopyFile, ev, name, stderr).1 == NextView::<InstallAction, ()>::Go(
            InstallAction::RemoveFile(good(ev)),
        ),
{
}

/// The name of the temporary file of a program.
pub fn temporary_name(name: &str) -> (r: String)
    ensures
        r@ == "k3dev-"@ + name@,
{
    let mut s = "k3dev-".to_owned();
    s.append(name);
    s
}

/// A place in a container, in the notation of the copying program.
pub fn place_in_container(container: &str, dest: &str) -> (r: String)
    ensures
        r@ == container@ + ":"@ + dest@,
{
    let mut s = container.to_owned();
    s.append(":");
    s.append(dest);
    s
}

/// A program that the cluster's container needs.
#[derive(Debug, Clone, Copy, PartialEq, Eq, Structural)]
pub enum Tool {
    Socat,
    Agent,
}

/// An action on the way to a container with a program.
#[derive(Debug, Clone, Copy, PartialEq, Eq, Structural)]
pub enum ToolAction {
    /// Ask whether it is there.
    AskPresent,
    /// Install it.
    Install,
    /// Try it.
    Try,
}

/// The command that finds out whether a program is there.
pub open spec fn presence_command(t: Tool) -> Seq<Seq<char>> {
    match t {
        Tool::Socat => Seq::<Seq<char>>::empty().push("which"@).push("socat"@),
        Tool::Agent => Seq::<Seq<char>>::empty().push("test"@).push("-x"@).push(
            "/usr/local/bin/k3dev-agent"@,
        ),
    }
}

/// Where a program goes.
pub open spec fn tool_path(t: Tool) -> Seq<char> {
    match t {
        Tool::Socat => "/usr/local/bin/socat"@,
        Tool::Agent => "/usr/local/bin/k3dev-agent"@,
    }
}

/// What follows an action.
#[derive(Debug)]
pub enum ToolNext {
    Go(ToolAction),
    Done,
    Fail(Trouble),
}

/// What follows an action, as a value.
pub enum ToolNextView {
    Go(ToolAction),
    Done,
    Fail(TroubleView),
}

impl View for ToolNext {
    type V = ToolNextView;

    open spec fn view(&self) -> ToolNextView {
        match *self {
            ToolNext::Go(a) => ToolNextView::Go(a),
            ToolNext::Done => ToolNextView::Done,
            ToolNext::Fail(t) => ToolNextView::Fail(t@),
        }
    }
}

/// The failure with a message that an event has caused.
pub open spec fn caused(message: Seq<char>, ev: Event) -> TroubleView {
    TroubleView { message, cause: Some(reason(ev)) }
}

/// What follows an action. Only socat is tried.
pub open spec fn tool_next(t: Tool, a: ToolAction, ev: Event) -> ToolNextView {
    match a {
        ToolAction::AskPresent => if good(ev) {
            ToolNextView::Done
        } else {
            ToolNextView::Go(ToolAction::Install)
        },
        ToolAction::Install => match t {
            Tool::Socat => if good(ev) {
                ToolNextView::Go(ToolAction::Try)
            } else {
                ToolNextView::Fail(caused("Failed to install socat"@, ev))
            },
            Tool::Agent => if good(ev) {
                ToolNextView::Done
            } else {
                ToolNextView::Fail(caused("Failed to install k3dev-agent"@, ev))
            },
        },
        ToolAction::Try => if good(ev) {
            ToolNextView::Done
        } else {
            ToolNextView::Fail(caused("socat verification failed"@, ev))
        },
    }
}

fn failed_with(message: &str, ev: &Event) -> (r: ToolNext)
    ensures
        r@ == ToolNextView::Fail(caused(message@, *ev)),
{
    ToolNext::Fail(Trouble { message: message.to_owned(), cause: Some(ev.why()) })
}

/// What follows an action.
pub fn install_tool(t: Tool, a: ToolAction, ev: &Event) -> (r: ToolNext)
    ensures
        r@ == tool_next(t, a, *ev),
{
    match a {
        ToolAction::AskPresent => if ev.is_good() {
            ToolNext::Done
        } else {
            ToolNext::Go(ToolAction::Install)
        },
        ToolAction::Install => match t {
            Tool::Socat => if ev.is_good() {
                ToolNext::Go(ToolAction::Try)
            } else {
                failed_with("Failed to install socat", ev)
            },
            Tool::Agent => if ev.is_good() {
                ToolNext::Done
            } else {
                failed_with("Failed to install k3dev-agent", ev)
            },
        },
        ToolAction::Try => if ev.is_good() {
            ToolNext::Done
        } else {
            failed_with("socat verification failed", ev)
        },
    }
}

/// The command that finds out whether a program is there.
pub fn ask_presence(t: Tool) -> (r: Vec<String>)
    ensures
        views(r@) == presence_command(t),
{
    let mut v = no_texts();
    match t {
        Tool::Socat => {
            push_text(&mut v, "which");
            push_text(&mut v, "socat");
        },
        Tool::Agent => {
            push_text(&mut v, "test");
            push_text(&mut v, "-x");
            push_text(&mut v, "/usr/local/bin/k3dev-agent");
        },
    }
    v
}

/// Where a program goes.
pub fn path_of_tool(t: Tool) -> (r: &'static str)
    ensures
        r@ == tool_path(t),
{
    match t {
        Tool::Socat => "/usr/local/bin/socat",
        Tool::Agent => "/usr/local/bin/k3dev-agent",
    }
}

// ---------------------------------------------------------------------------
// Access to the cluster
// ---------------------------------------------------------------------------

/// How often the cluster's configuration is read until it is complete.
pub const ACCESS_ATTEMPTS: u32 = 30;

/// An action on the way to access.
#[derive(Debug, Clone, Copy, PartialEq, Eq, Structural)]
pub enum AccessAction {
    /// Find the home directory.
    FindHome,
    /// Make the directory for the configuration.
    MakeDirectory,
    /// Read the configuration from the container for the so-manieth time, counted from 0: `Yes`
    /// says that it is complete.
    Read(u32),
    /// Pause for a second after that.
    Pause(u32),
    /// Write it to a temporary file.
    WriteFile,
    /// Copy it to its place.
    CopyFile,
    /// Let only its owner read it.
    Protect,
    /// Remove the temporary file.
    RemoveFile,
}

/// Whether the text is a complete configuration.
pub open spec fn complete_access(content: Seq<char>) -> bool {
    content.len() > 0 && has_sub(content, "clusters:"@)
}

/// The configuration with the address of the machine on which the cluster runs.
pub open spec fn reachable_access(content: Seq<char>, remote: Option<String>) -> Seq<char> {
    match remote {
        Some(h) => replaced(content, "127.0.0.1"@, h@),
        None => content,
    }
}

/// The step that follows an action.
pub open spec fn access_next(a: AccessAction, ev: Event) -> StepView<AccessAction, ()> {
    match a {
        AccessAction::FindHome => if good(ev) {
            (silent(), NextView::Go(AccessAction::MakeDirectory))
        } else {
            (silent(), NextView::Fail("Cannot find home directory"@))
        },
        AccessAction::Read(n) => if good(ev) {
            (silent(), NextView::Go(AccessAction::WriteFile))
        } else {
            (silent(), NextView::Go(AccessAction::Pause(n)))
        },
        AccessAction::Pause(n) => if n + 1 < ACCESS_ATTEMPTS {
            (silent(), NextView::Go(AccessAction::Read((n + 1) as u32)))
        } else {
            (silent(), NextView::Fail("Timeout waiting for kubeconfig"@))
        },
        AccessAction::RemoveFile => (silent(), NextView::Done(())),
        _ => if good(ev) {
            (
                silent(),
                NextView::Go(
                    match a {
                        AccessAction::MakeDirectory => AccessAction::Read(0),
                        AccessAction::WriteFile => AccessAction::CopyFile,
                        AccessAction::CopyFile => AccessAction::Protect,
                        _ => AccessAction::RemoveFile,
                    },
                ),
            )
        } else {
            (silent(), NextView::Fail(reason(ev)))
        },
    }
}

/// How many more actions it takes at most, this one counted.
pub open spec fn access_distance(a: AccessAction) -> int {
    match a {
        AccessAction::FindHome => 100,
        AccessAction::MakeDirectory => 99,
        AccessAction::Read(n) => 6 + 2 * (ACCESS_ATTEMPTS - n),
        AccessAction::Pause(n) => 5 + 2 * (ACCESS_ATTEMPTS - n),
        AccessAction::WriteFile => 4,
        AccessAction::CopyFile => 3,
        AccessAction::Protect => 2,
        AccessAction::RemoveFile => 1,
    }
}

/// The configuration is read thirty times at most, and nothing is written before it is complete.
pub proof fn law_access_is_bounded(a: AccessAction, ev: Event)
    requires
        a matches AccessAction::Read(n) ==> n < ACCESS_ATTEMPTS,
        a matches AccessAction::Pause(n) ==> n < ACCESS_ATTEMPTS,
    ensures
        access_next(a, ev).1 matches NextView::Go(b) ==> access_distance(b) < access_distance(a)
            && (b matches AccessAction::Read(n) ==> n < ACCESS_ATTEMPTS) && (b
            matches AccessAction::Pause(n) ==> n < ACCESS_ATTEMPTS),
        access_next(a, ev).1 == NextView::<AccessAction, ()>::Go(AccessAction::WriteFile) ==> a
            is Read && good(ev),
{
}

/// Whether the text is a complete configuration.
pub fn access_is_complete(content: &str) -> (r: bool)
    ensures
        r == complete_access(content@),
{
    !content.is_empty() && contains(content, "clusters:")
}

/// The configuration with the address of the machine on which the cluster runs.
pub fn fix_access(content: String, remote: &Option<String>) -> (r: String)
    ensures
        r@ == reachable_access(content@, *remote),
{
    match remote {
        Some(h) => {
            proof {
                reveal_strlit("127.0.0.1");
            }
            replace(content.as_str(), "127.0.0.1", h.as_str())
        },
        None => content,
    }
}

/// The step that follows an action.
pub fn setup_kubeconfig(a: AccessAction, ev: &Event) -> (r: Step<AccessAction, ()>)
    ensures
        r@ == access_next(a, *ev),
{
    match a {
        AccessAction::FindHome => if ev.is_good() {
            go(AccessAction::MakeDirectory)
        } else {
            Step {
                lines: no_lines(),
                next: Next::Fail("Cannot find home directory".to_owned()),
            }
        },
        AccessAction::Read(n) => if ev.is_good() {
            go(AccessAction::WriteFile)
        } else {
            go(AccessAction::Pause(n))
        },
        AccessAction::Pause(n) => if n < ACCESS_ATTEMPTS - 1 {
            go(AccessAction::Read(n + 1))
        } else {
            Step {
                lines: no_lines(),
                next: Next::Fail("Timeout waiting for kubeconfig".to_owned()),
            }
        },
        AccessAction::RemoveFile => done(()),
        _ => {
            if !ev.is_good() {
                return fail(ev);
            }
            match a {
                AccessAction::MakeDirectory => go(AccessAction::Read(0)),
                AccessAction::WriteFile => go(AccessAction::CopyFile),
                AccessAction::CopyFile => go(AccessAction::Protect),
                _ => go(AccessAction::RemoveFile),
            }
        },
    }
}

// ---------------------------------------------------------------------------
// Waiting for components
// ---------------------------------------------------------------------------

/// How long a component may take, in seconds.
pub const COMPONENT_TIMEOUT: u64 = 60;

/// What is said before the wait for the components.
pub open spec fn components_begin() -> Seq<LineView> {
    silent().push(info("Waiting for cluster components..."@)).push(
        info("Waiting for "@ + "coredns"@ + "..."@),
    ).push(info("Waiting for "@ + "local-path-provisioner"@ + "..."@))
}

/// What is said of a component that is not ready.
pub open spec fn not_ready(name: Seq<char>, secs: u64) -> LineView {
    warning(name + " not ready after "@ + decimal(secs as nat) + "s, continuing..."@)
}

/// What is said before the wait for a component.
pub fn await_deployment(name: &str) -> (r: OutputLine)
    ensures
        r@ == info("Waiting for "@ + name@ + "..."@),
{
    let mut s = "Waiting for ".to_owned();
    s.append(name);
    s.append("...");
    OutputLine::info(s.as_str())
}

/// What is said after the wait for a component: a warning, unless it is known to be ready.
pub fn wait_for_deployment(name: &str, secs: u64, ready: Option<bool>) -> (r: Option<OutputLine>)
    ensures
        match r {
            Some(l) => ready != Some(true) && l@ == not_ready(name@, secs),
            None => ready == Some(true),
        },
{
    match ready {
        Some(true) => None,
        _ => {
            let mut s = name.to_owned();
            s.append(" not ready after ");
            s.append(u64_text(secs).as_str());
            s.append("s, continuing...");
            Some(OutputLine::warning(s.as_str()))
        },
    }
}

/// What is said before the wait for the components.
pub fn begin_cluster_ready() -> (r: Vec<OutputLine>)
    ensures
        line_views(r@) == components_begin(),
{
    let mut lines = no_lines();
    say(&mut lines, OutputLine::info("Waiting for cluster components..."));
    say(&mut lines, await_deployment("coredns"));
    say(&mut lines, await_deployment("local-path-provisioner"));
    lines
}

/// What is said of components that are not ready: the name server first.
pub fn wait_for_cluster_ready(coredns: Option<bool>, provisioner: Option<bool>) -> (r: Vec<
    OutputLine,
>)
    ensures
        line_views(r@).len() == 0 <==> coredns == Some(true) && provisioner == Some(true),
        line_views(r@) == {
            let a = if coredns == Some(true) {
                silent()
            } else {
                silent().push(not_ready("coredns"@, COMPONENT_TIMEOUT))
            };
            if provisioner == Some(true) {
                a
            } else {
                a.push(not_ready("local-path-provisioner"@, COMPONENT_TIMEOUT))
            }
        },
{
    let mut lines = no_lines();
    if let Some(l) = wait_for_deployment("coredns", COMPONENT_TIMEOUT, coredns) {
        say(&mut lines, l);
    }
    if let Some(l) = wait_for_deployment("local-path-provisioner", COMPONENT_TIMEOUT, provisioner) {
        say(&mut lines, l);
    }
    lines
}

/// A cluster is taken to be up exactly on success or on a demand for credentials; without an answer
/// it is not. Then the wait is over at once, and else it goes on or is given up.
pub proof fn law_wait_ends_with_the_api(w: ApiWait, status: Option<u16>)
    ensures
        w.after(status) is Up <==> (status matches Some(s) && (s / 100 == 2 || s == 401)),
        pause_after(0) == 100,
        pause_after(1) == 200,
        w.after(status) matches ApiNext::Retry(ms, _) ==> ms == w.interval_ms,
        w.after(status) matches ApiNext::GiveUp(ms) ==> ms == w.interval_ms,
{
    reveal_with_fuel(pause_after, 3);
}

/// A program is installed only where it was written, copied and made executable, in this order; a
/// copy that failed fails the installation once the temporary file is removed.
pub proof fn law_installation_goes_on(
    a: InstallAction,
    ev: Event,
    name: Seq<char>,
    stderr: Seq<char>,
)
    ensures
        install_next(a, ev, name, stderr).1 matches NextView::Go(b) ==> match b {
            InstallAction::WriteFile => false,
            InstallAction::MakeDirectory => a is WriteFile && good(ev),
            InstallAction::CopyFile => a is MakeDirectory,
            InstallAction::RemoveFile(copied) => a is CopyFile && copied == good(ev) && !(ev
                is Failed),
            InstallAction::MakeExecutable => a == InstallAction::RemoveFile(true),
        },
        install_next(a, ev, name, stderr).1 is Done <==> a is MakeExecutable && good(ev),
        install_next(a, ev, name, stderr).1 is Fail <==> a == InstallAction::RemoveFile(false) || (a
            is CopyFile && ev is Failed) || ((a is WriteFile || a is MakeExecutable) && !good(ev)),
{
}

/// A program that is there is not installed again, one that is not there is; it is done with only
/// once it was there or was installed, and socat only once it also works.
pub proof fn law_missing_programs_are_installed(t: Tool, a: ToolAction, ev: Event)
    ensures
        tool_next(t, a, ev) matches ToolNextView::Go(b) ==> match b {
            ToolAction::AskPresent => false,
            ToolAction::Install => a is AskPresent && !good(ev),
            ToolAction::Try => a is Install && good(ev) && t is Socat,
        },
        tool_next(t, a, ev) is Done <==> good(ev) && (a is AskPresent || a is Try || (a is Install
            && t is Agent)),
        tool_next(t, a, ev) is Fail <==> !good(ev) && !(a is AskPresent),
        tool_next(t, a, ev) matches ToolNextView::Fail(e) ==> e.cause == Some(reason(ev)),
{
}

/// A program is looked for where it goes.
pub proof fn law_programs_are_looked_for()
    ensures
        presence_command(Tool::Agent).last() == tool_path(Tool::Agent),
        ends(tool_path(Tool::Socat), presence_command(Tool::Socat).last()),
{
    reveal_strlit("/usr/local/bin/socat");
    reveal_strlit("socat");
    let p = "/usr/local/bin/socat"@;
    assert(p.subrange(p.len() - 5, p.len() as int) =~= "socat"@);
}

/// Access is set up in order: what is read is written, copied, protected and cleaned up after, each
/// only where what comes before it went well; a configuration that is not complete is read again.
pub proof fn law_access_goes_on(a: AccessAction, ev: Event)
    ensures
        access_next(a, ev).1 matches NextView::Go(b) ==> match b {
            AccessAction::FindHome => false,
            AccessAction::MakeDirectory => a is FindHome && good(ev),
            AccessAction::Read(n) => (a is MakeDirectory && good(ev) && n == 0) || (
            a matches AccessAction::Pause(m) && n == m + 1),
            AccessAction::Pause(n) => a == AccessAction::Read(n) && !good(ev),
            AccessAction::WriteFile => a is Read && good(ev),
            AccessAction::CopyFile => a is WriteFile && good(ev),
            AccessAction::Protect => a is CopyFile && good(ev),
            AccessAction::RemoveFile => a is Protect && good(ev),
        },
        access_next(a, ev).1 is Done <==> a is RemoveFile,
        access_next(a, ev).1 is Fail ==> !good(ev) || (a matches AccessAction::Pause(n) && n >= 29),
        a matches AccessAction::Pause(n) && n >= 29 ==> access_next(a, ev).1 is Fail,
{
}

/// A configuration is taken as it is where the cluster runs on this machine.
pub proof fn law_local_access_is_kept(content: Seq<char>)
    ensures
        reachable_access(content, None) == content,
        complete_access(content) ==> content.len() > 0,
        !complete_access(Seq::empty()),
{
}

/// Each program goes to its own place.
pub proof fn law_programs_have_their_places(t: Tool)
    ensures
        t == Tool::Socat ==> tool_path(t) == "/usr/local/bin/socat"@,
        t == Tool::Agent ==> tool_path(t) == "/usr/local/bin/k3dev-agent"@,
{
}

/// A configuration is complete where it speaks of clusters, and is made reachable by the address of the
/// machine in place of the first local one, and of all that follow.
pub proof fn law_access_is_made_reachable(content: Seq<char>, host: String, i: int)
    ensures
        complete_access(content) <==> has_sub(content, "clusters:"@),
        !has_sub(content, "127.0.0.1"@) ==> reachable_access(content, Some(host)) == content,
        sub_index(content, "127.0.0.1"@) == Some(i) ==> reachable_access(content, Some(host))
            == content.take(i) + host@ + reachable_access(
            content.skip(i + "127.0.0.1"@.len()),
            Some(host),
        ),
{
    reveal_strlit("127.0.0.1");
    reveal_strlit("clusters:");
    law_replacing_goes_left_to_right(content, "127.0.0.1"@, host@, i);
    if has_sub(content, "clusters:"@) {
        let k = choose|k: int| #[trigger] occurs_at(content, "clusters:"@, k);
        assert(content.len() > 0);
    }
}

/// A component that is late is warned about by its name, with the time it had.
pub proof fn law_late_components_are_named(name: Seq<char>, secs: u64)
    ensures
        not_ready(name, secs).0 == OutputType::Warning,
        begins(not_ready(name, secs).1, name),
        has_sub(not_ready(name, secs).1, decimal(secs as nat) + "s"@),
{
    reveal_strlit("s");
    reveal_strlit("s, continuing...");
    let a = name + " not ready after "@;
    let d = decimal(secs as nat);
    let e = "s, continuing..."@;
    let x = d + "s"@;
    let t = a + d + e;
    assert(e.take(1) =~= "s"@);
    assert(t =~= a + x + e.skip(1));
    lemma_has_in(x, x, x);
    lemma_has_in(x, a, x);
    lemma_has_in(x, a + x, e.skip(1));
    assert(t.subrange(0, name.len() as int) =~= name);
}

} // verus!
