//! The benchmark of the program's start: what is measured, and what the measurements mean.

use vstd::prelude::*;
use crate::cluster::config::{ClusterConfig, HooksConfig, InfrastructureConfig};
use crate::cluster::k3s::info::{name_of_status, status_name};
use crate::cluster::k3s::status::ClusterStatus;
use crate::elapsed::{millis, millis_of};
use crate::number::{decimal, number_upto, parse_u64, u128_text, u64_text};
use crate::text::{
    ends, has_sub, in_upper, join, joined, lemma_has_in, no_texts, opt_view, pad, pad_left, padded,
    padded_left, push_text, repeat, repeated, same, to_uppercase, views,
};

verus! {

/// What came of a phase.
#[derive(Debug, Clone, Copy, PartialEq, Eq, Structural)]
pub enum PhaseStatus {
    /// It worked within its time.
    Pass,
    /// It did not work, or took too long.
    Fail,
    /// It could not be measured.
    Skip,
}

/// A phase that was measured, in nanoseconds, against a budget, in milliseconds.
#[derive(Debug)]
pub struct PhaseResult {
    pub name: &'static str,
    pub nanos: u128,
    pub budget_ms: u64,
    pub status: PhaseStatus,
    pub detail: String,
}

/// The phases of a start, in order.
#[derive(Debug, Clone, Copy, PartialEq, Eq, Structural)]
pub enum BenchPhase {
    ConfigLoad,
    AppInit,
    StatusCheck,
    ClientInit,
    ListPods,
    PodStats,
    TimeToPods,
}

/// The budgets of the phases, in milliseconds.
#[derive(Debug, Clone, Copy)]
pub struct Budgets {
    pub config_load: u64,
    pub app_init: u64,
    pub status_check: u64,
    pub client_init: u64,
    pub list_pods: u64,
    pub pod_stats: u64,
    pub time_to_pods: u64,
}

/// How long it took until pods were seen, in nanoseconds, and how many.
#[derive(Debug, Clone, Copy)]
pub struct PodTimes {
    pub status_nanos: u128,
    pub pods_nanos: u128,
    pub running: usize,
    pub pending: usize,
}

/// What came of measuring a phase.
#[derive(Debug)]
pub enum BenchEvent {
    ConfigLoaded { warnings: usize },
    AppInit(bool),
    Status(ClusterStatus),
    ClientInit(bool),
    Pods(Result<usize, String>),
    Stats(Result<usize, String>),
    TimeToPods(Result<PodTimes, String>),
}

/// The report of a benchmark.
#[derive(Debug)]
pub struct BenchReport {
    pub cluster_running: bool,
    pub phases: Vec<PhaseResult>,
    /// Whether no phase failed.
    pub passed: bool,
}

/// A benchmark under way.
#[derive(Debug)]
pub struct BenchRun {
    pub budgets: Budgets,
    pub cluster_running: bool,
    pub phases: Vec<PhaseResult>,
}

// ---------------------------------------------------------------------------
// Budgets
// ---------------------------------------------------------------------------

/// The name of the environment variable with the budget of a phase.
pub fn budget_key(name: &str) -> (r: String)
    ensures
        r@ == "K3DEV_BENCH_"@ + in_upper(name@) + "_MS"@,
{
    let mut s = "K3DEV_BENCH_".to_owned();
    s.append(to_uppercase(name).as_str());
    s.append("_MS");
    s
}

/// The budget of a phase: what the environment variable says, or the default.
pub open spec fn budget_in(variable: Option<Seq<char>>, default: u64) -> u64 {
    match variable {
        Some(s) => match number_upto(s, u64::MAX as nat) {
            Some(n) => n as u64,
            None => default,
        },
        None => default,
    }
}

/// The budget of a phase: what the environment variable says, or the default.
pub fn budget_ms(variable: &Option<String>, default: u64) -> (r: u64)
    ensures
        r == budget_in(opt_view(*variable), default),
{
    match variable {
        Some(s) => match parse_u64(s.as_str()) {
            Some(n) => n,
            None => default,
        },
        None => default,
    }
}

/// Whether a time is above a budget.
pub open spec fn over_budget(nanos: u128, budget_ms: u64) -> bool {
    nanos > budget_ms * 1000000
}

/// What came of a phase that worked or not and took so long.
pub open spec fn class_of(nanos: u128, budget_ms: u64, ok: bool) -> PhaseStatus {
    if !ok || over_budget(nanos, budget_ms) {
        PhaseStatus::Fail
    } else {
        PhaseStatus::Pass
    }
}

/// What came of a phase that worked or not and took so long.
pub fn classify(nanos: u128, budget_ms: u64, functional_ok: bool) -> (r: PhaseStatus)
    ensures
        r == class_of(nanos, budget_ms, functional_ok),
{
    if !functional_ok || nanos > budget_ms as u128 * 1000000 {
        PhaseStatus::Fail
    } else {
        PhaseStatus::Pass
    }
}

// ---------------------------------------------------------------------------
// Settings
// ---------------------------------------------------------------------------

/// A text that is not empty.
pub open spec fn unless_blank(s: Seq<char>) -> Option<Seq<char>> {
    if s.len() == 0 {
        None
    } else {
        Some(s)
    }
}

fn some_text(s: String) -> (r: Option<String>)
    ensures
        opt_view(r) == unless_blank(s@),
        r matches Some(t) ==> t == s,
{
    if s.as_str().is_empty() {
        None
    } else {
        Some(s)
    }
}

/// The settings of a cluster from the sections of the configuration. An empty kubeconfig or
/// context is none.
pub fn build_cluster_config(
    infrastructure: InfrastructureConfig,
    hooks: HooksConfig,
    kubeconfig: String,
    context: String,
) -> (r: ClusterConfig)
    ensures
        r.k3s_version == infrastructure.k3s_version,
        r.domain == infrastructure.domain,
        r.container_name == infrastructure.container_name,
        r.network_name == infrastructure.network_name,
        r.api_port == infrastructure.api_port,
        r.http_port == infrastructure.http_port,
        r.https_port == infrastructure.https_port,
        r.additional_ports@ == crate::cluster::config::port_pairs(
            views(infrastructure.additional_ports@),
        ),
        r.speedup == infrastructure.speedup,
        r.hooks == hooks,
        opt_view(r.kubeconfig) == unless_blank(kubeconfig@),
        opt_view(r.context) == unless_blank(context@),
{
    ClusterConfig::from(infrastructure).with_hooks(hooks).with_k8s_config(
        some_text(kubeconfig),
        some_text(context),
    )
}

// ---------------------------------------------------------------------------
// The run
// ---------------------------------------------------------------------------

/// A phase, as a value: name, time, budget, status and detail.
pub type PhaseView = (Seq<char>, u128, u64, PhaseStatus, Seq<char>);

impl View for PhaseResult {
    type V = PhaseView;

    open spec fn view(&self) -> PhaseView {
        (self.name@, self.nanos, self.budget_ms, self.status, self.detail@)
    }
}

/// Phases, as values.
pub open spec fn phase_views(v: Seq<PhaseResult>) -> Seq<PhaseView> {
    Seq::new(v.len(), |i: int| v[i]@)
}

/// The name of a phase.
pub open spec fn phase_name(p: BenchPhase) -> Seq<char> {
    match p {
        BenchPhase::ConfigLoad => "config_load"@,
        BenchPhase::AppInit => "app_init"@,
        BenchPhase::StatusCheck => "status_check"@,
        BenchPhase::ClientInit => "k8s_client_init"@,
        BenchPhase::ListPods => "list_pods"@,
        BenchPhase::PodStats => "docker_pod_stats"@,
        BenchPhase::TimeToPods => "time_to_pods_e2e"@,
    }
}

/// The place of a phase.
pub open spec fn phase_place(p: BenchPhase) -> int {
    match p {
        BenchPhase::ConfigLoad => 0,
        BenchPhase::AppInit => 1,
        BenchPhase::StatusCheck => 2,
        BenchPhase::ClientInit => 3,
        BenchPhase::ListPods => 4,
        BenchPhase::PodStats => 5,
        BenchPhase::TimeToPods => 6,
    }
}

/// The phase that an event belongs to.
pub open spec fn phase_of(ev: BenchEvent) -> BenchPhase {
    match ev {
        BenchEvent::ConfigLoaded { .. } => BenchPhase::ConfigLoad,
        BenchEvent::AppInit(_) => BenchPhase::AppInit,
        BenchEvent::Status(_) => BenchPhase::StatusCheck,
        BenchEvent::ClientInit(_) => BenchPhase::ClientInit,
        BenchEvent::Pods(_) => BenchPhase::ListPods,
        BenchEvent::Stats(_) => BenchPhase::PodStats,
        BenchEvent::TimeToPods(_) => BenchPhase::TimeToPods,
    }
}

/// The budget of a phase.
pub open spec fn budget_for(b: Budgets, p: BenchPhase) -> u64 {
    match p {
        BenchPhase::ConfigLoad => b.config_load,
        BenchPhase::AppInit => b.app_init,
        BenchPhase::StatusCheck => b.status_check,
        BenchPhase::ClientInit => b.client_init,
        BenchPhase::ListPods => b.list_pods,
        BenchPhase::PodStats => b.pod_stats,
        BenchPhase::TimeToPods => b.time_to_pods,
    }
}

/// Whether what an event tells of worked. Only the time of reading the configuration and of asking
/// for the status counts.
pub open spec fn worked(ev: BenchEvent) -> bool {
    match ev {
        BenchEvent::AppInit(ok) => ok,
        BenchEvent::ClientInit(ok) => ok,
        BenchEvent::Pods(r) => r is Ok,
        BenchEvent::Stats(r) => r is Ok,
        BenchEvent::TimeToPods(r) => r is Ok,
        _ => true,
    }
}

/// The detail of a phase.
pub open spec fn detail_of(ev: BenchEvent) -> Seq<char> {
    match ev {
        BenchEvent::ConfigLoaded { warnings } => decimal(warnings as nat) + " config warning(s)"@,
        BenchEvent::AppInit(ok) => if ok {
            "App::new() ok"@
        } else {
            "App::new() failed"@
        },
        BenchEvent::Status(s) => "cluster status: "@ + status_name(s),
        BenchEvent::ClientInit(ok) => if ok {
            "K8sClient::new() ok"@
        } else {
            "K8sClient::new() failed"@
        },
        BenchEvent::Pods(r) => match r {
            Ok(n) => decimal(n as nat) + " pending pod(s)"@,
            Err(e) => "list_pending_pods failed: "@ + e@,
        },
        BenchEvent::Stats(r) => match r {
            Ok(n) => decimal(n as nat) + " running container(s)"@,
            Err(e) => "docker pod stats failed: "@ + e@,
        },
        BenchEvent::TimeToPods(r) => match r {
            Ok(t) => "status="@ + decimal(millis(t.status_nanos as nat)) + "ms + pod_fetch="@ + decimal(
                millis(t.pods_nanos as nat),
            ) + "ms → "@ + decimal(t.running as nat) + " running / "@ + decimal(t.pending as nat)
                + " pending"@,
            Err(e) => "App::new() failed: "@ + e@,
        },
    }
}

/// The time that counts: none where waiting for pods could not begin.
pub open spec fn counted(ev: BenchEvent, nanos: u128) -> u128 {
    match ev {
        BenchEvent::TimeToPods(r) => if r is Err {
            0
        } else {
            nanos
        },
        _ => nanos,
    }
}

/// A phase that was measured.
pub open spec fn measured(b: Budgets, ev: BenchEvent, nanos: u128) -> PhaseView {
    let p = phase_of(ev);
    (
        phase_name(p),
        counted(ev, nanos),
        budget_for(b, p),
        class_of(counted(ev, nanos), budget_for(b, p), worked(ev)),
        detail_of(ev),
    )
}

/// A phase that was not measured.
pub open spec fn skipped_phase(b: Budgets, p: BenchPhase, reason: Seq<char>) -> PhaseView {
    (phase_name(p), 0, budget_for(b, p), PhaseStatus::Skip, reason)
}

/// The phases that an event leaves out, behind those that are known: all that need a running
/// cluster where there is none, and the list of pods without a client.
pub open spec fn with_skipped(known: Seq<PhaseView>, b: Budgets, ev: BenchEvent) -> Seq<PhaseView> {
    match ev {
        BenchEvent::Status(s) => if s == ClusterStatus::Running {
            known
        } else {
            let reason = "cluster not running ("@ + status_name(s) + ")"@;
            known.push(skipped_phase(b, BenchPhase::ClientInit, reason)).push(
                skipped_phase(b, BenchPhase::ListPods, reason),
            ).push(skipped_phase(b, BenchPhase::PodStats, reason)).push(
                skipped_phase(b, BenchPhase::TimeToPods, reason),
            )
        },
        BenchEvent::ClientInit(ok) => if ok {
            known
        } else {
            known.push(skipped_phase(b, BenchPhase::ListPods, "k8s client unavailable"@))
        },
        _ => known,
    }
}

/// What is known after an event.
pub open spec fn recorded(known: Seq<PhaseView>, b: Budgets, ev: BenchEvent, nanos: u128) -> Seq<
    PhaseView,
> {
    with_skipped(known.push(measured(b, ev, nanos)), b, ev)
}

/// The phase to measure after an event.
pub open spec fn next_phase(ev: BenchEvent) -> Option<BenchPhase> {
    match ev {
        BenchEvent::ConfigLoaded { .. } => Some(BenchPhase::AppInit),
        BenchEvent::AppInit(_) => Some(BenchPhase::StatusCheck),
        BenchEvent::Status(s) => if s == ClusterStatus::Running {
            Some(BenchPhase::ClientInit)
        } else {
            None
        },
        BenchEvent::ClientInit(ok) => if ok {
            Some(BenchPhase::ListPods)
        } else {
            Some(BenchPhase::PodStats)
        },
        BenchEvent::Pods(_) => Some(BenchPhase::PodStats),
        BenchEvent::Stats(_) => Some(BenchPhase::TimeToPods),
        BenchEvent::TimeToPods(_) => None,
    }
}

fn name_of(p: BenchPhase) -> (r: &'static str)
    ensures
        r@ == phase_name(p),
{
    match p {
        BenchPhase::ConfigLoad => "config_load",
        BenchPhase::AppInit => "app_init",
        BenchPhase::StatusCheck => "status_check",
        BenchPhase::ClientInit => "k8s_client_init",
        BenchPhase::ListPods => "list_pods",
        BenchPhase::PodStats => "docker_pod_stats",
        BenchPhase::TimeToPods => "time_to_pods_e2e",
    }
}

fn budget_of(b: &Budgets, p: BenchPhase) -> (r: u64)
    ensures
        r == budget_for(*b, p),
{
    match p {
        BenchPhase::ConfigLoad => b.config_load,
        BenchPhase::AppInit => b.app_init,
        BenchPhase::StatusCheck => b.status_check,
        BenchPhase::ClientInit => b.client_init,
        BenchPhase::ListPods => b.list_pods,
        BenchPhase::PodStats => b.pod_stats,
        BenchPhase::TimeToPods => b.time_to_pods,
    }
}

fn millis_text(nanos: u128) -> (r: String)
    ensures
        r@ == decimal(millis(nanos as nat)),
{
    u128_text(millis_of(nanos))
}

fn counted_text(n: usize, what: &str) -> (r: String)
    ensures
        r@ == decimal(n as nat) + what@,
{
    let mut s = u64_text(n as u64);
    s.append(what);
    s
}

fn two(a: &str, b: &str) -> (r: String)
    ensures
        r@ == a@ + b@,
{
    let mut s = a.to_owned();
    s.append(b);
    s
}

fn describe(ev: &BenchEvent) -> (r: String)
    ensures
        r@ == detail_of(*ev),
{
    match ev {
        BenchEvent::ConfigLoaded { warnings } => counted_text(*warnings, " config warning(s)"),
        BenchEvent::AppInit(ok) => if *ok {
            "App::new() ok".to_owned()
        } else {
            "App::new() failed".to_owned()
        },
        BenchEvent::Status(s) => two("cluster status: ", name_of_status(*s)),
        BenchEvent::ClientInit(ok) => if *ok {
            "K8sClient::new() ok".to_owned()
        } else {
            "K8sClient::new() failed".to_owned()
        },
        BenchEvent::Pods(r) => match r {
            Ok(n) => counted_text(*n, " pending pod(s)"),
            Err(e) => two("list_pending_pods failed: ", e.as_str()),
        },
        BenchEvent::Stats(r) => match r {
            Ok(n) => counted_text(*n, " running container(s)"),
            Err(e) => two("docker pod stats failed: ", e.as_str()),
        },
        BenchEvent::TimeToPods(r) => match r {
            Ok(t) => {
                let mut s = "status=".to_owned();
                s.append(millis_text(t.status_nanos).as_str());
                s.append("ms + pod_fetch=");
                s.append(millis_text(t.pods_nanos).as_str());
                s.append("ms → ");
                s.append(u64_text(t.running as u64).as_str());
                s.append(" running / ");
                s.append(u64_text(t.pending as u64).as_str());
                s.append(" pending");
                s
            },
            Err(e) => two("App::new() failed: ", e.as_str()),
        },
    }
}

fn phase_for(ev: &BenchEvent) -> (r: BenchPhase)
    ensures
        r == phase_of(*ev),
{
    match ev {
        BenchEvent::ConfigLoaded { .. } => BenchPhase::ConfigLoad,
        BenchEvent::AppInit(_) => BenchPhase::AppInit,
        BenchEvent::Status(_) => BenchPhase::StatusCheck,
        BenchEvent::ClientInit(_) => BenchPhase::ClientInit,
        BenchEvent::Pods(_) => BenchPhase::ListPods,
        BenchEvent::Stats(_) => BenchPhase::PodStats,
        BenchEvent::TimeToPods(_) => BenchPhase::TimeToPods,
    }
}

fn did_work(ev: &BenchEvent) -> (r: bool)
    ensures
        r == worked(*ev),
{
    match ev {
        BenchEvent::AppInit(ok) => *ok,
        BenchEvent::ClientInit(ok) => *ok,
        BenchEvent::Pods(r) => r.is_ok(),
        BenchEvent::Stats(r) => r.is_ok(),
        BenchEvent::TimeToPods(r) => r.is_ok(),
        _ => true,
    }
}

impl BenchRun {
    /// A benchmark that begins; its first phase is reading the configuration.
    pub fn new(budgets: Budgets) -> (r: BenchRun)
        ensures
            r.budgets == budgets,
            !r.cluster_running,
            r.phases@.len() == 0,
    {
        BenchRun { budgets, cluster_running: false, phases: Vec::new() }
    }

    fn add(&mut self, p: PhaseResult)
        ensures
            phase_views(final(self).phases@) == phase_views(old(self).phases@).push(p@),
            final(self).budgets == old(self).budgets,
            final(self).cluster_running == old(self).cluster_running,
    {
        let ghost before = phase_views(self.phases@);
        self.phases.push(p);
        assert(phase_views(self.phases@) =~= before.push(p@));
    }

    fn skip(&mut self, p: BenchPhase, reason: &str)
        ensures
            phase_views(final(self).phases@) == phase_views(old(self).phases@).push(
                skipped_phase(old(self).budgets, p, reason@),
            ),
            final(self).budgets == old(self).budgets,
            final(self).cluster_running == old(self).cluster_running,
    {
        let budget_ms: u64 = budget_of(&self.budgets, p);
        self.add(
            PhaseResult {
                name: name_of(p),
                nanos: 0,
                budget_ms,
                status: PhaseStatus::Skip,
                detail: reason.to_owned(),
            },
        );
    }

    /// Takes what came of measuring a phase and how long it took: the next phase, if any.
    pub fn run_bench(&mut self, ev: &BenchEvent, nanos: u128) -> (r: Option<BenchPhase>)
        ensures
            phase_views(final(self).phases@) == recorded(
                phase_views(old(self).phases@),
                old(self).budgets,
                *ev,
                nanos,
            ),
            final(self).budgets == old(self).budgets,
            final(self).cluster_running == match *ev {
                BenchEvent::Status(s) => s == ClusterStatus::Running,
                _ => old(self).cluster_running,
            },
            r == next_phase(*ev),
    {
        let p = phase_for(ev);
        let time: u128 = match ev {
            BenchEvent::TimeToPods(r) => if r.is_err() {
                0
            } else {
                nanos
            },
            _ => nanos,
        };
        let budget_ms: u64 = budget_of(&self.budgets, p);
        let status = classify(time, budget_ms, did_work(ev));
        self.add(
            PhaseResult { name: name_of(p), nanos: time, budget_ms, status, detail: describe(ev) },
        );
        match ev {
            BenchEvent::ConfigLoaded { .. } => Some(BenchPhase::AppInit),
            BenchEvent::AppInit(_) => Some(BenchPhase::StatusCheck),
            BenchEvent::Status(s) => {
                if *s == ClusterStatus::Running {
                    self.cluster_running = true;
                    Some(BenchPhase::ClientInit)
                } else {
                    self.cluster_running = false;
                    let mut reason = "cluster not running (".to_owned();
                    reason.append(name_of_status(*s));
                    reason.append(")");
                    self.skip(BenchPhase::ClientInit, reason.as_str());
                    self.skip(BenchPhase::ListPods, reason.as_str());
                    self.skip(BenchPhase::PodStats, reason.as_str());
                    self.skip(BenchPhase::TimeToPods, reason.as_str());
                    None
                }
            },
            BenchEvent::ClientInit(ok) => if *ok {
                Some(BenchPhase::ListPods)
            } else {
                self.skip(BenchPhase::ListPods, "k8s client unavailable");
                Some(BenchPhase::PodStats)
            },
            BenchEvent::Pods(_) => Some(BenchPhase::PodStats),
            BenchEvent::Stats(_) => Some(BenchPhase::TimeToPods),
            BenchEvent::TimeToPods(_) => None,
        }
    }

    /// The report of a benchmark: it passed where no phase failed.
    pub fn report(self) -> (r: BenchReport)
        ensures
            r.cluster_running == self.cluster_running,
            r.phases == self.phases,
            r.passed == !some_failed(phase_views(self.phases@)),
    {
        let mut failed = false;
        let mut i: usize = 0;
        while i < self.phases.len()
            invariant
                i <= self.phases@.len(),
                failed == exists|j: int|
                    0 <= j < i && (#[trigger] phase_views(self.phases@)[j]).3 == PhaseStatus::Fail,
            decreases self.phases@.len() - i,
        {
            assert(phase_views(self.phases@)[i as int].3 == self.phases@[i as int].status);
            if self.phases[i].status == PhaseStatus::Fail {
                failed = true;
            }
            i = i + 1;
        }
        BenchReport { cluster_running: self.cluster_running, phases: self.phases, passed: !failed }
    }
}

/// Whether a phase failed.
pub open spec fn some_failed(phases: Seq<PhaseView>) -> bool {
    exists|i: int| 0 <= i < phases.len() && (#[trigger] phases[i]).3 == PhaseStatus::Fail
}

// ---------------------------------------------------------------------------
// The report as text
// ---------------------------------------------------------------------------

/// The mark of a status and its colour.
pub open spec fn mark_of(s: PhaseStatus) -> (Seq<char>, Seq<char>) {
    match s {
        PhaseStatus::Pass => ("PASS"@, "\x1b[32m"@),
        PhaseStatus::Fail => ("FAIL"@, "\x1b[31m"@),
        PhaseStatus::Skip => ("SKIP"@, "\x1b[90m"@),
    }
}

/// The line of a phase.
pub open spec fn phase_line(p: PhaseView) -> Seq<char> {
    "  "@ + padded(p.0, 20) + " "@ + padded_left(
        if p.3 == PhaseStatus::Skip {
            "    -"@
        } else {
            decimal(millis(p.1 as nat)) + "ms"@
        },
        9,
    ) + "  "@ + padded_left(decimal(p.2 as nat) + "ms"@, 9) + "  "@ + mark_of(p.3).1 + padded(
        mark_of(p.3).0,
        6,
    ) + "\x1b[0m \x1b[90m"@ + p.4 + "\x1b[0m\n"@
}

/// The lines of phases.
pub open spec fn phase_lines(phases: Seq<PhaseView>) -> Seq<char>
    decreases phases.len(),
{
    if phases.len() == 0 {
        Seq::empty()
    } else {
        phase_lines(phases.drop_last()) + phase_line(phases.last())
    }
}

/// The time of the first phase that waited for pods and was measured.
pub open spec fn pods_time(phases: Seq<PhaseView>) -> Option<u128>
    decreases phases.len(),
{
    if phases.len() == 0 {
        None
    } else if phases[0].0 == "time_to_pods_e2e"@ && phases[0].3 != PhaseStatus::Skip {
        Some(phases[0].1)
    } else {
        pods_time(phases.skip(1))
    }
}

/// The names of the phases that failed.
pub open spec fn failed_names(phases: Seq<PhaseView>) -> Seq<Seq<char>>
    decreases phases.len(),
{
    if phases.len() == 0 {
        Seq::empty()
    } else if phases.last().3 == PhaseStatus::Fail {
        failed_names(phases.drop_last()).push(phases.last().0)
    } else {
        failed_names(phases.drop_last())
    }
}

/// The head of the report.
pub const BENCH_TITLE: &'static str = "\x1b[1mk3dev startup benchmark\x1b[0m\n\n";

/// What is said where the cluster does not run.
pub const NOT_RUNNING_NOTE: &'static str =
    "\x1b[33m⚠ Cluster not running — cluster-dependent phases skipped.\x1b[0m\n\x1b[90m  Start it with `k3dev start`, then re-run `k3dev bench`.\x1b[0m\n";

/// What is said of a long wait for pods.
pub const SLOW_PODS_NOTE: &'static str =
    "\x1b[33m  Pods are fetched eagerly on the status→Running transition, so\x1b[0m\n\x1b[90m  this is real Docker/K8s I/O latency, not RefreshScheduler gating\x1b[0m\n\x1b[90m  (src/app/messages.rs spawns the pod checks eagerly).\x1b[0m\n";

/// What is said of the wait for pods.
pub open spec fn pods_note(time: Option<u128>) -> Seq<char> {
    match time {
        None => Seq::empty(),
        Some(n) => {
            let head = "\x1b[1m  Time until pods are visible after opening k3dev: "@ + decimal(
                millis(n as nat),
            ) + "ms\x1b[0m\n"@;
            if n >= 1500000000 {
                head + SLOW_PODS_NOTE@
            } else {
                head
            }
        },
    }
}

/// The report as text.
pub open spec fn report_text(running: bool, phases: Seq<PhaseView>, passed: bool) -> Seq<char> {
    let table = BENCH_TITLE@ + "  \x1b[1m"@ + padded("PHASE"@, 20) + " "@ + padded_left("TIME"@, 9)
        + "  "@ + padded_left("BUDGET"@, 9) + "  "@ + padded("RESULT"@, 6)
        + " DETAIL\x1b[0m\n"@ + "  "@ + repeated('-', 86) + "\n"@ + phase_lines(phases) + "\n"@;
    let noted = if running {
        table
    } else {
        table + NOT_RUNNING_NOTE@
    };
    noted + pods_note(pods_time(phases)) + "\n"@ + if passed {
        "\x1b[32m✓ All measured phases within budget\x1b[0m\n"@
    } else {
        "\x1b[31m✗ Over budget / failed: "@ + joined(failed_names(phases), ", "@) + "\x1b[0m\n"@
    }
}

fn line_of(p: &PhaseResult) -> (r: String)
    ensures
        r@ == phase_line(p@),
{
    let (mark, color) = match p.status {
        PhaseStatus::Pass => ("PASS", "\x1b[32m"),
        PhaseStatus::Fail => ("FAIL", "\x1b[31m"),
        PhaseStatus::Skip => ("SKIP", "\x1b[90m"),
    };
    let time = if p.status == PhaseStatus::Skip {
        "    -".to_owned()
    } else {
        let mut t = millis_text(p.nanos);
        t.append("ms");
        t
    };
    let mut budget = u64_text(p.budget_ms);
    budget.append("ms");
    let mut s = "  ".to_owned();
    s.append(pad(p.name, 20).as_str());
    s.append(" ");
    s.append(pad_left(time.as_str(), 9).as_str());
    s.append("  ");
    s.append(pad_left(budget.as_str(), 9).as_str());
    s.append("  ");
    s.append(color);
    s.append(pad(mark, 6).as_str());
    s.append("\x1b[0m \x1b[90m");
    s.append(p.detail.as_str());
    s.append("\x1b[0m\n");
    s
}

impl BenchReport {
    fn table(&self) -> (r: String)
        ensures
            r@ == phase_lines(phase_views(self.phases@)),
    {
        let ghost all = phase_views(self.phases@);
        let mut s = String::new();
        let mut i: usize = 0;
        assert(all.take(0) =~= Seq::<PhaseView>::empty());
        assert(s@ =~= Seq::<char>::empty());
        while i < self.phases.len()
            invariant
                i <= self.phases@.len(),
                all == phase_views(self.phases@),
                s@ == phase_lines(all.take(i as int)),
            decreases self.phases@.len() - i,
        {
            assert(all.take(i + 1).drop_last() =~= all.take(i as int));
            assert(all.take(i + 1).last() == self.phases@[i as int]@);
            s.append(line_of(&self.phases[i]).as_str());
            i = i + 1;
        }
        assert(all.take(i as int) =~= all);
        s
    }

    fn failures(&self) -> (r: Vec<String>)
        ensures
            views(r@) == failed_names(phase_views(self.phases@)),
    {
        let ghost all = phase_views(self.phases@);
        let mut out = no_texts();
        let mut i: usize = 0;
        assert(all.take(0) =~= Seq::<PhaseView>::empty());
        while i < self.phases.len()
            invariant
                i <= self.phases@.len(),
                all == phase_views(self.phases@),
                views(out@) == failed_names(all.take(i as int)),
            decreases self.phases@.len() - i,
        {
            assert(all.take(i + 1).drop_last() =~= all.take(i as int));
            assert(all.take(i + 1).last() == self.phases@[i as int]@);
            if self.phases[i].status == PhaseStatus::Fail {
                push_text(&mut out, self.phases[i].name);
            }
            i = i + 1;
        }
        assert(all.take(i as int) =~= all);
        out
    }

    fn wait_for_pods(&self) -> (r: Option<u128>)
        ensures
            r == pods_time(phase_views(self.phases@)),
    {
        let ghost all = phase_views(self.phases@);
        let mut i: usize = 0;
        assert(all.skip(0) =~= all);
        while i < self.phases.len()
            invariant
                i <= self.phases@.len(),
                all == phase_views(self.phases@),
                pods_time(all) == pods_time(all.skip(i as int)),
            decreases self.phases@.len() - i,
        {
            assert(all.skip(i as int)[0] == self.phases@[i as int]@);
            assert(all.skip(i as int).skip(1) =~= all.skip(i + 1));
            let p = &self.phases[i];
            if same(p.name, "time_to_pods_e2e") && p.status != PhaseStatus::Skip {
                return Some(p.nanos);
            }
            i = i + 1;
        }
        assert(all.skip(i as int).len() == 0);
        None
    }

    /// The report as text.
    pub fn print(&self) -> (r: String)
        ensures
            r@ == report_text(self.cluster_running, phase_views(self.phases@), self.passed),
    {
        let mut s = BENCH_TITLE.to_owned();
        s.append("  \x1b[1m");
        s.append(pad("PHASE", 20).as_str());
        s.append(" ");
        s.append(pad_left("TIME", 9).as_str());
        s.append("  ");
        s.append(pad_left("BUDGET", 9).as_str());
        s.append("  ");
        s.append(pad("RESULT", 6).as_str());
        s.append(" DETAIL\x1b[0m\n");
        s.append("  ");
        s.append(repeat('-', 86).as_str());
        s.append("\n");
        s.append(self.table().as_str());
        s.append("\n");
        if !self.cluster_running {
            s.append(NOT_RUNNING_NOTE);
        }
        let ghost before = s@;
        match self.wait_for_pods() {
            Some(n) => {
                let mut note =
                    "\x1b[1m  Time until pods are visible after opening k3dev: ".to_owned();
                note.append(millis_text(n).as_str());
                note.append("ms\x1b[0m\n");
                if n >= 1500000000 {
                    note.append(SLOW_PODS_NOTE);
                }
                s.append(note.as_str());
            },
            None => {
                assert(before + Seq::<char>::empty() =~= before);
            },
        }
        s.append("\n");
        if self.passed {
            s.append("\x1b[32m✓ All measured phases within budget\x1b[0m\n");
        } else {
            let mut t = "\x1b[31m✗ Over budget / failed: ".to_owned();
            t.append(join(&self.failures(), ", ").as_str());
            t.append("\x1b[0m\n");
            s.append(t.as_str());
        }
        s
    }
}

// ---------------------------------------------------------------------------
// Laws
// ---------------------------------------------------------------------------

/// Whether the phases before `n` are known, each under its name.
pub open spec fn known_upto(phases: Seq<PhaseView>, n: int) -> bool {
    &&& phases.len() == n
    &&& forall|p: BenchPhase| phase_place(p) < n ==> phases[#[trigger] phase_place(p)].0
        == phase_name(p)
}

/// A benchmark that takes its phases in order reports all seven, each under its name, when it ends.
pub proof fn law_all_phases_are_reported(
    known: Seq<PhaseView>,
    b: Budgets,
    ev: BenchEvent,
    nanos: u128,
)
    requires
        known_upto(known, phase_place(phase_of(ev))),
    ensures
        known_upto(
            recorded(known, b, ev, nanos),
            match next_phase(ev) {
                Some(p) => phase_place(p),
                None => 7,
            },
        ),
{
    let all = recorded(known, b, ev, nanos);
    assert forall|p: BenchPhase| phase_place(p) < all.len() implies all[#[trigger] phase_place(p)].0
        == phase_name(p) by {
        if phase_place(p) < known.len() {
            assert(all[phase_place(p)] == known[phase_place(p)]);
        }
    }
}

/// A phase that was not measured never makes a benchmark fail.
pub proof fn law_skipped_phases_do_not_fail(known: Seq<PhaseView>, b: Budgets, ev: BenchEvent)
    ensures
        some_failed(with_skipped(known, b, ev)) == some_failed(known),
{
    let all = with_skipped(known, b, ev);
    if some_failed(known) {
        let i = choose|i: int| 0 <= i < known.len() && (#[trigger] known[i]).3 == PhaseStatus::Fail;
        assert(all[i] == known[i]);
    }
    if some_failed(all) {
        let i = choose|i: int| 0 <= i < all.len() && (#[trigger] all[i]).3 == PhaseStatus::Fail;
        assert(i < known.len());
        assert(all[i] == known[i]);
    }
}

/// A phase that did not work fails, whatever time it took, and with it the benchmark.
pub proof fn law_what_does_not_work_fails(
    known: Seq<PhaseView>,
    b: Budgets,
    ev: BenchEvent,
    nanos: u128,
)
    requires
        !worked(ev),
    ensures
        measured(b, ev, nanos).3 == PhaseStatus::Fail,
        some_failed(recorded(known, b, ev, nanos)),
{
    assert(recorded(known, b, ev, nanos)[known.len() as int] == measured(b, ev, nanos));
}

/// A phase fails exactly when it did not work or took longer than its budget; a larger budget
/// never makes it fail.
pub proof fn law_larger_budgets_are_kinder(nanos: u128, a: u64, b: u64, ok: bool)
    requires
        a <= b,
    ensures
        class_of(nanos, b, ok) == PhaseStatus::Fail ==> class_of(nanos, a, ok) == PhaseStatus::Fail,
{
}

/// A phase that worked passes up to its budget, in milliseconds, and fails beyond it; no phase that was
/// measured is skipped.
pub proof fn law_budgets_are_in_milliseconds(nanos: u128, budget: u64, ok: bool)
    ensures
        class_of(nanos, budget, ok) == PhaseStatus::Pass <==> ok && nanos <= budget * 1_000_000,
        class_of(nanos, budget, ok) == PhaseStatus::Fail <==> !ok || nanos > budget * 1_000_000,
{
}

/// A budget in the environment counts as it is written; without one that can be read, the default
/// does.
pub proof fn law_budgets_are_read(n: u64, default: u64)
    ensures
        budget_in(Some(decimal(n as nat)), default) == n,
        budget_in(None, default) == default,
        budget_in(Some(Seq::empty()), default) == default,
{
    crate::number::law_decimal_reads_back(n as nat, u64::MAX as nat);
    crate::number::law_only_digits_make_numbers(Seq::empty(), u64::MAX as nat, 0);
}

/// Each phase is held to its own budget, with the time that it took.
pub proof fn law_phases_have_their_budgets(b: Budgets, ev: BenchEvent, nanos: u128)
    ensures
        measured(b, ev, nanos).2 == match ev {
            BenchEvent::ConfigLoaded { .. } => b.config_load,
            BenchEvent::AppInit(_) => b.app_init,
            BenchEvent::Status(_) => b.status_check,
            BenchEvent::ClientInit(_) => b.client_init,
            BenchEvent::Pods(_) => b.list_pods,
            BenchEvent::Stats(_) => b.pod_stats,
            BenchEvent::TimeToPods(_) => b.time_to_pods,
        },
        measured(b, ev, nanos).1 == nanos || ev is TimeToPods && measured(b, ev, nanos).3
            == PhaseStatus::Fail,
        measured(b, ev, nanos).3 == PhaseStatus::Fail <==> !worked(ev) || measured(b, ev, nanos).1
            > measured(b, ev, nanos).2 * 1_000_000,
        measured(b, ev, nanos).3 != PhaseStatus::Skip,
{
}

/// What failed is told to have failed.
pub proof fn law_errors_do_not_work(ev: BenchEvent)
    ensures
        ev matches BenchEvent::AppInit(ok) ==> worked(ev) == ok,
        ev matches BenchEvent::ClientInit(ok) ==> worked(ev) == ok,
        ev matches BenchEvent::Pods(r) ==> worked(ev) == (r is Ok),
        ev matches BenchEvent::Stats(r) ==> worked(ev) == (r is Ok),
        ev matches BenchEvent::TimeToPods(r) ==> worked(ev) == (r is Ok),
{
}

/// Without a running cluster what needs one is skipped, and nothing else ever but the list of pods
/// without a client; nothing that is known is lost.
pub proof fn law_only_what_needs_the_cluster_is_skipped(
    known: Seq<PhaseView>,
    b: Budgets,
    ev: BenchEvent,
    i: int,
)
    ensures
        with_skipped(known, b, ev).len() == known.len() + match ev {
            BenchEvent::Status(s) => if s == ClusterStatus::Running {
                0int
            } else {
                4
            },
            BenchEvent::ClientInit(ok) => if ok {
                0
            } else {
                1
            },
            _ => 0,
        },
        0 <= i < known.len() ==> with_skipped(known, b, ev)[i] == known[i],
        known.len() <= i < with_skipped(known, b, ev).len() ==> with_skipped(known, b, ev)[i].3
            == PhaseStatus::Skip && with_skipped(known, b, ev)[i].1 == 0,
{
}

/// The failures that a report names are those of the phases that failed.
pub proof fn law_failed_phases_are_named(phases: Seq<PhaseView>, name: Seq<char>)
    ensures
        failed_names(phases).contains(name) <==> exists|i: int|
            0 <= i < phases.len() && (#[trigger] phases[i]).0 == name && phases[i].3
                == PhaseStatus::Fail,
        failed_names(phases).len() > 0 <==> some_failed(phases),
    decreases phases.len(),
{
    if phases.len() > 0 {
        let d = phases.drop_last();
        let r = failed_names(d);
        let y = phases.last().0;
        let t = r.push(y);
        law_failed_phases_are_named(d, name);
        assert(t[r.len() as int] == y);
        assert(phases[phases.len() - 1] == phases.last());
        if r.contains(name) {
            let j = choose|j: int| 0 <= j < r.len() && r[j] == name;
            assert(t[j] == name);
            let i = choose|i: int|
                0 <= i < d.len() && (#[trigger] d[i]).0 == name && d[i].3 == PhaseStatus::Fail;
            assert(phases[i] == d[i]);
        }
        if t.contains(name) && name != y {
            let j = choose|j: int| 0 <= j < t.len() && t[j] == name;
            assert(r[j] == name);
        }
        if exists|i: int|
            0 <= i < phases.len() && (#[trigger] phases[i]).0 == name && phases[i].3
                == PhaseStatus::Fail {
            let i = choose|i: int|
                0 <= i < phases.len() && (#[trigger] phases[i]).0 == name && phases[i].3
                    == PhaseStatus::Fail;
            if i < d.len() {
                assert(d[i] == phases[i]);
            }
        }
        if some_failed(d) {
            let i = choose|i: int| 0 <= i < d.len() && (#[trigger] d[i]).3 == PhaseStatus::Fail;
            assert(phases[i] == d[i]);
        }
        if some_failed(phases) {
            let i = choose|i: int|
                0 <= i < phases.len() && (#[trigger] phases[i]).3 == PhaseStatus::Fail;
            if i < d.len() {
                assert(d[i] == phases[i]);
            }
        }
    }
}

/// Every phase has its line in the report.
pub proof fn law_every_phase_has_a_line(running: bool, phases: Seq<PhaseView>, passed: bool, i: int)
    requires
        0 <= i < phases.len(),
    ensures
        has_sub(report_text(running, phases, passed), phase_line(phases[i])),
        ends(
            report_text(running, phases, passed),
            if passed {
                "\x1b[32m✓ All measured phases within budget\x1b[0m\n"@
            } else {
                "\x1b[31m✗ Over budget / failed: "@ + joined(failed_names(phases), ", "@)
                    + "\x1b[0m\n"@
            },
        ),
{
    let x = phase_line(phases[i]);
    lemma_line_in(phases, i);
    let l = phase_lines(phases);
    let head = BENCH_TITLE@ + "  \x1b[1m"@ + padded("PHASE"@, 20) + " "@ + padded_left("TIME"@, 9)
        + "  "@ + padded_left("BUDGET"@, 9) + "  "@ + padded("RESULT"@, 6)
        + " DETAIL\x1b[0m\n"@ + "  "@ + repeated('-', 86) + "\n"@;
    lemma_has_in(x, head, l);
    lemma_has_in(x, head + l, "\n"@);
    let table = head + l + "\n"@;
    lemma_has_in(x, table, NOT_RUNNING_NOTE@);
    let noted = if running {
        table
    } else {
        table + NOT_RUNNING_NOTE@
    };
    let n = pods_note(pods_time(phases));
    let e = if passed {
        "\x1b[32m✓ All measured phases within budget\x1b[0m\n"@
    } else {
        "\x1b[31m✗ Over budget / failed: "@ + joined(failed_names(phases), ", "@) + "\x1b[0m\n"@
    };
    lemma_has_in(x, noted, n);
    lemma_has_in(x, noted + n, "\n"@);
    lemma_has_in(x, noted + n + "\n"@, e);
    let s = noted + n + "\n"@ + e;
    assert(report_text(running, phases, passed) == s);
    assert(s.subrange(s.len() - e.len(), s.len() as int) =~= e);
}

proof fn lemma_line_in(phases: Seq<PhaseView>, i: int)
    requires
        0 <= i < phases.len(),
    ensures
        has_sub(phase_lines(phases), phase_line(phases[i])),
    decreases phases.len(),
{
    let d = phases.drop_last();
    lemma_has_in(phase_line(phases[i]), phase_lines(d), phase_line(phases.last()));
    if i < d.len() {
        lemma_line_in(d, i);
        assert(d[i] == phases[i]);
    } else {
        let x = phase_line(phases[i]);
        lemma_has_in(x, x, x);
    }
}

/// A line tells the name, the result and the detail of its phase, and the time it took unless it was
/// skipped.
pub proof fn law_lines_tell_the_phase(p: PhaseView)
    ensures
        has_sub(phase_line(p), padded(p.0, 20)),
        has_sub(phase_line(p), p.4),
        has_sub(phase_line(p), padded(mark_of(p.3).0, 6)),
        has_sub(phase_line(p), padded_left(decimal(p.2 as nat) + "ms"@, 9)),
        p.3 != PhaseStatus::Skip ==> has_sub(
            phase_line(p),
            padded_left(decimal(millis(p.1 as nat)) + "ms"@, 9),
        ),
        p.3 == PhaseStatus::Pass ==> mark_of(p.3).0 == "PASS"@,
        p.3 == PhaseStatus::Fail ==> mark_of(p.3).0 == "FAIL"@,
        p.3 == PhaseStatus::Skip ==> mark_of(p.3).0 == "SKIP"@,
{
    let a = "  "@;
    let b = padded(p.0, 20);
    let t = padded_left(
        if p.3 == PhaseStatus::Skip {
            "    -"@
        } else {
            decimal(millis(p.1 as nat)) + "ms"@
        },
        9,
    );
    let g = padded_left(decimal(p.2 as nat) + "ms"@, 9);
    let m = padded(mark_of(p.3).0, 6);
    let c = mark_of(p.3).1;
    let h1 = a + b;
    let h2 = h1 + " "@;
    let h3 = h2 + t;
    let h4 = h3 + "  "@;
    let h5 = h4 + g;
    let h6 = h5 + "  "@;
    let h7 = h6 + c;
    let h8 = h7 + m;
    let h9 = h8 + "\x1b[0m \x1b[90m"@;
    let h10 = h9 + p.4;
    let h11 = h10 + "\x1b[0m\n"@;
    assert(phase_line(p) == h11);
    lemma_has_in(b, b, b);
    lemma_has_in(t, t, t);
    lemma_has_in(g, g, g);
    lemma_has_in(m, m, m);
    lemma_has_in(p.4, p.4, p.4);
    lemma_has_in(b, a, b);
    lemma_has_in(b, h1, " "@);
    lemma_has_in(b, h2, t);
    lemma_has_in(t, h2, t);
    lemma_in_last(b, h3, g, c, m, p.4);
    lemma_in_last(t, h3, g, c, m, p.4);
    lemma_has_in(g, h4, g);
    lemma_has_in(g, h5, "  "@);
    lemma_has_in(g, h6, c);
    lemma_has_in(g, h7, m);
    lemma_has_in(m, h7, m);
    lemma_has_in(g, h8, "\x1b[0m \x1b[90m"@);
    lemma_has_in(m, h8, "\x1b[0m \x1b[90m"@);
    lemma_has_in(g, h9, p.4);
    lemma_has_in(m, h9, p.4);
    lemma_has_in(p.4, h9, p.4);
    lemma_has_in(g, h10, "\x1b[0m\n"@);
    lemma_has_in(m, h10, "\x1b[0m\n"@);
    lemma_has_in(p.4, h10, "\x1b[0m\n"@);
}

/// What stands in the first columns of a line stands in the line.
proof fn lemma_in_last(
    x: Seq<char>,
    h: Seq<char>,
    g: Seq<char>,
    c: Seq<char>,
    m: Seq<char>,
    d: Seq<char>,
)
    requires
        has_sub(h, x),
    ensures
        has_sub(
            h + "  "@ + g + "  "@ + c + m + "\x1b[0m \x1b[90m"@ + d + "\x1b[0m\n"@,
            x,
        ),
{
    lemma_has_in(x, h, "  "@);
    lemma_has_in(x, h + "  "@, g);
    lemma_has_in(x, h + "  "@ + g, "  "@);
    lemma_has_in(x, h + "  "@ + g + "  "@, c);
    lemma_has_in(x, h + "  "@ + g + "  "@ + c, m);
    lemma_has_in(x, h + "  "@ + g + "  "@ + c + m, "\x1b[0m \x1b[90m"@);
    lemma_has_in(x, h + "  "@ + g + "  "@ + c + m + "\x1b[0m \x1b[90m"@, d);
    lemma_has_in(x, h + "  "@ + g + "  "@ + c + m + "\x1b[0m \x1b[90m"@ + d, "\x1b[0m\n"@);
}

/// The wait for pods that is told is that of the first phase of that name that was measured.
pub proof fn law_first_wait_for_pods_counts(phases: Seq<PhaseView>, k: int)
    ensures
        0 <= k < phases.len() && phases[k].0 == "time_to_pods_e2e"@ && phases[k].3
            != PhaseStatus::Skip && (forall|i: int|
            0 <= i < k ==> (#[trigger] phases[i]).0 != "time_to_pods_e2e"@ || phases[i].3
                == PhaseStatus::Skip) ==> pods_time(phases) == Some(phases[k].1),
        (forall|i: int|
            0 <= i < phases.len() ==> (#[trigger] phases[i]).0 != "time_to_pods_e2e"@ || phases[i].3
                == PhaseStatus::Skip) ==> pods_time(phases) is None,
    decreases phases.len(),
{
    if phases.len() > 0 && !(phases[0].0 == "time_to_pods_e2e"@ && phases[0].3 != PhaseStatus::Skip) {
        let r = phases.skip(1);
        law_first_wait_for_pods_counts(r, k - 1);
        assert forall|i: int| 0 <= i < r.len() implies #[trigger] r[i] == phases[i + 1] by {}
        if 0 < k < phases.len() {
            assert(r[k - 1] == phases[k]);
        }
    }
}

/// A blank setting is none, any other is as it is.
pub proof fn law_blank_settings_are_none(s: Seq<char>)
    ensures
        unless_blank(s) is None <==> s.len() == 0,
        unless_blank(s) matches Some(t) ==> t == s,
{
}

/// Each phase has its name, and what came of it is told with it.
pub proof fn law_phases_have_their_names(b: Budgets, ev: BenchEvent, nanos: u128)
    ensures
        measured(b, ev, nanos).0 == match ev {
            BenchEvent::ConfigLoaded { .. } => "config_load"@,
            BenchEvent::AppInit(_) => "app_init"@,
            BenchEvent::Status(_) => "status_check"@,
            BenchEvent::ClientInit(_) => "k8s_client_init"@,
            BenchEvent::Pods(_) => "list_pods"@,
            BenchEvent::Stats(_) => "docker_pod_stats"@,
            BenchEvent::TimeToPods(_) => "time_to_pods_e2e"@,
        },
        ev matches BenchEvent::Pods(Err(e)) ==> ends(measured(b, ev, nanos).4, e@),
        ev matches BenchEvent::Stats(Err(e)) ==> ends(measured(b, ev, nanos).4, e@),
        ev matches BenchEvent::TimeToPods(Err(e)) ==> ends(measured(b, ev, nanos).4, e@),
        ev matches BenchEvent::Status(s) ==> ends(measured(b, ev, nanos).4, status_name(s)),
{
    let d = measured(b, ev, nanos).4;
    match ev {
        BenchEvent::Pods(Err(e)) => {
            assert(d.subrange(d.len() - e@.len(), d.len() as int) =~= e@);
        },
        BenchEvent::Stats(Err(e)) => {
            assert(d.subrange(d.len() - e@.len(), d.len() as int) =~= e@);
        },
        BenchEvent::TimeToPods(Err(e)) => {
            assert(d.subrange(d.len() - e@.len(), d.len() as int) =~= e@);
        },
        BenchEvent::Status(s) => {
            let n = status_name(s);
            assert(d.subrange(d.len() - n.len(), d.len() as int) =~= n);
        },
        _ => {},
    }
}

/// A wait for pods of a second and a half or more is explained; a wait that was not measured is not
/// told.
pub proof fn law_long_waits_are_explained(n: u128)
    ensures
        n >= 1_500_000_000 ==> ends(pods_note(Some(n)), SLOW_PODS_NOTE@),
        has_sub(pods_note(Some(n)), decimal(millis(n as nat)) + "ms"@),
        pods_note(None).len() == 0,
        n < 1_500_000_000 ==> pods_note(Some(n)).len() + SLOW_PODS_NOTE@.len() == (pods_note(Some(n))
            + SLOW_PODS_NOTE@).len() && ends(pods_note(Some(n)), "ms\x1b[0m\n"@),
{
    reveal_strlit("ms");
    reveal_strlit("ms\x1b[0m\n");
    let a = "\x1b[1m  Time until pods are visible after opening k3dev: "@;
    let d = decimal(millis(n as nat));
    let e = "ms\x1b[0m\n"@;
    let x = d + "ms"@;
    let head = a + d + e;
    assert(head =~= a + x + e.skip(2)) by {
        assert(e.take(2) =~= "ms"@);
    }
    lemma_has_in(x, a, x);
    lemma_has_in(x, x, x);
    lemma_has_in(x, a + x, e.skip(2));
    lemma_has_in(x, head, SLOW_PODS_NOTE@);
    let s = pods_note(Some(n));
    if n >= 1_500_000_000 {
        assert(s.subrange(s.len() - SLOW_PODS_NOTE@.len(), s.len() as int) =~= SLOW_PODS_NOTE@);
    } else {
        assert(s.subrange(s.len() - e.len(), s.len() as int) =~= e);
    }
}

} // verus!
