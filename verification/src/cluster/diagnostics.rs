//! The diagnostic suites: their tests, which tests to skip, and how a run proceeds.

use vstd::prelude::*;
use crate::cluster::config::ClusterConfig;
use crate::number::{decimal, number_upto, parse_upto, u64_text};
use crate::text::{begins, has_sub, lemma_has_middle, same, split_words, views, words};

verus! {

pub const CAT_PREREQUISITES: &'static str = "Prerequisites";

pub const CAT_CLUSTER: &'static str = "Cluster";

pub const CAT_CORE_SERVICES: &'static str = "Core Services";

pub const CAT_NETWORKING: &'static str = "Networking";

pub const CAT_PODS: &'static str = "Pods";

pub const CAT_DEEP_VERIFICATION: &'static str = "Deep Verification";

pub const CAT_PREFLIGHT_SYSTEM: &'static str = "System";

pub const CAT_PREFLIGHT_DOCKER: &'static str = "Docker";

pub const CAT_PREFLIGHT_PORTS: &'static str = "Ports";

pub const CAT_PREFLIGHT_CONFIG: &'static str = "Configuration";

/// Status of a single diagnostic test.
#[derive(Debug, Clone, PartialEq)]
pub enum DiagnosticStatus {
    Pending,
    Running,
    Passed,
    Failed(String),
    Skipped(String),
}

/// A single diagnostic test and its result. The duration is in nanoseconds.
#[derive(Debug, Clone)]
pub struct DiagnosticResult {
    pub id: &'static str,
    pub category: &'static str,
    pub name: String,
    pub status: DiagnosticStatus,
    pub duration: Option<u64>,
}

/// The state of a whole suite.
#[derive(Debug, Clone)]
pub struct DiagnosticsReport {
    pub results: Vec<DiagnosticResult>,
    pub finished: bool,
}

// ---------------------------------------------------------------------------
// Models
// ---------------------------------------------------------------------------

/// The text-valued counterpart of [`DiagnosticStatus`].
pub enum StatusView {
    Pending,
    Running,
    Passed,
    Failed(Seq<char>),
    Skipped(Seq<char>),
}

/// The text-valued counterpart of [`DiagnosticResult`].
pub struct ResultView {
    pub id: Seq<char>,
    pub category: Seq<char>,
    pub name: Seq<char>,
    pub status: StatusView,
    pub duration: Option<u64>,
}

impl View for DiagnosticStatus {
    type V = StatusView;

    open spec fn view(&self) -> StatusView {
        match *self {
            DiagnosticStatus::Pending => StatusView::Pending,
            DiagnosticStatus::Running => StatusView::Running,
            DiagnosticStatus::Passed => StatusView::Passed,
            DiagnosticStatus::Failed(s) => StatusView::Failed(s@),
            DiagnosticStatus::Skipped(s) => StatusView::Skipped(s@),
        }
    }
}

impl View for DiagnosticResult {
    type V = ResultView;

    open spec fn view(&self) -> ResultView {
        ResultView {
            id: self.id@,
            category: self.category@,
            name: self.name@,
            status: self.status@,
            duration: self.duration,
        }
    }
}

/// The views of a sequence of results.
pub open spec fn result_views(v: Seq<DiagnosticResult>) -> Seq<ResultView> {
    Seq::new(v.len(), |i: int| v[i]@)
}

/// A test that has not been started.
pub open spec fn pending_row(id: Seq<char>, category: Seq<char>, name: Seq<char>) -> ResultView {
    ResultView { id, category, name, status: StatusView::Pending, duration: None }
}

/// The tests of the full suite, in the order in which they run.
pub open spec fn test_rows() -> Seq<ResultView> {
    seq![
        pending_row("docker_accessible"@, CAT_PREREQUISITES@, "Docker accessible"@),
        pending_row("kubectl_installed"@, CAT_PREREQUISITES@, "kubectl installed"@),
        pending_row("apparmor_check"@, CAT_PREREQUISITES@, "AppArmor profile"@),
        pending_row("br_netfilter_loaded"@, CAT_PREREQUISITES@, "br_netfilter module"@),
        pending_row("container_running"@, CAT_CLUSTER@, "K3s container running"@),
        pending_row("k8s_api_reachable"@, CAT_CLUSTER@, "K8s API reachable"@),
        pending_row("nodes_ready"@, CAT_CLUSTER@, "Node(s) Ready"@),
        pending_row("container_health"@, CAT_CLUSTER@, "Container health"@),
        pending_row("arch_mismatch"@, CAT_CLUSTER@, "Architecture match"@),
        pending_row("coredns_running"@, CAT_CORE_SERVICES@, "CoreDNS running"@),
        pending_row("traefik_service"@, CAT_CORE_SERVICES@, "Traefik service exists"@),
        pending_row("local_path_provisioner"@, CAT_CORE_SERVICES@, "local-path-provisioner running"@),
        pending_row("flannel_running"@, CAT_CORE_SERVICES@, "Flannel CNI configured"@),
        pending_row("host_ports_reachable"@, CAT_NETWORKING@, "Host ports reachable"@),
        pending_row("ingress_configured"@, CAT_NETWORKING@, "Ingress routes configured"@),
        pending_row("hosts_uptodate"@, CAT_NETWORKING@, "/etc/hosts up-to-date"@),
        pending_row("ingress_healthy"@, CAT_NETWORKING@, "Ingress endpoints healthy"@),
        pending_row("tls_cert_valid"@, CAT_NETWORKING@, "TLS certificate valid"@),
        pending_row("no_stuck_pods"@, CAT_PODS@, "No stuck pods"@),
        pending_row("no_pull_errors"@, CAT_PODS@, "No ImagePullBackOff"@),
        pending_row("no_crash_loops"@, CAT_PODS@, "No CrashLoopBackOff"@),
        pending_row("node_conditions"@, CAT_PODS@, "Node conditions healthy"@),
        pending_row("deep_setup"@, CAT_DEEP_VERIFICATION@, "Create test namespace"@),
        pending_row("deep_dns"@, CAT_DEEP_VERIFICATION@, "DNS resolution"@),
        pending_row("deep_connectivity"@, CAT_DEEP_VERIFICATION@, "Pod-to-Service connectivity"@),
        pending_row("deep_volume"@, CAT_DEEP_VERIFICATION@, "Volume write/read"@),
        pending_row("deep_host_http"@, CAT_DEEP_VERIFICATION@, "Host HTTP to Traefik"@),
        pending_row("deep_docker_in_container"@, CAT_DEEP_VERIFICATION@, "Docker socket in container"@),
        pending_row("deep_runtime_socket"@, CAT_DEEP_VERIFICATION@, "Container runtime socket"@),
        pending_row("deep_cleanup"@, CAT_DEEP_VERIFICATION@, "Cleanup test resources"@),
    ]
}

/// The name of the test of one port.
pub open spec fn port_test_name(port: nat, label: Seq<char>) -> Seq<char> {
    "Port "@ + decimal(port) + " ("@ + label + ") available"@
}

/// The test of one port.
pub open spec fn port_row(port: u16, label: Seq<char>) -> ResultView {
    pending_row("pre_port"@, CAT_PREFLIGHT_PORTS@, port_test_name(port as nat, label))
}

/// The preflight tests that do not depend on the configuration.
pub open spec fn fixed_preflight_rows() -> Seq<ResultView> {
    seq![
        pending_row("pre_docker_accessible"@, CAT_PREFLIGHT_SYSTEM@, "Docker accessible"@),
        pending_row("pre_kubectl_installed"@, CAT_PREFLIGHT_SYSTEM@, "kubectl installed"@),
        pending_row("pre_arch_check"@, CAT_PREFLIGHT_SYSTEM@, "Architecture"@),
        pending_row("pre_docker_info"@, CAT_PREFLIGHT_DOCKER@, "Docker daemon healthy"@),
        pending_row("pre_docker_disk"@, CAT_PREFLIGHT_DOCKER@, "Docker disk space"@),
        pending_row("pre_k3s_image"@, CAT_PREFLIGHT_DOCKER@, "K3s image available"@),
        pending_row("pre_container_conflict"@, CAT_PREFLIGHT_DOCKER@, "No container name conflict"@),
        pending_row("pre_network_conflict"@, CAT_PREFLIGHT_DOCKER@, "No network name conflict"@),
    ]
}

/// The preflight tests of the additional ports.
pub open spec fn additional_port_rows(ports: Seq<(u16, u16)>) -> Seq<ResultView> {
    Seq::new(ports.len(), |i: int| port_row(ports[i].0, "additional"@))
}

/// The preflight tests: the fixed ones, one per core port, one per additional port, and the
/// two directories.
pub open spec fn preflight_rows(config: ClusterConfig) -> Seq<ResultView> {
    let core = fixed_preflight_rows().push(port_row(config.http_port, "HTTP"@)).push(
        port_row(config.https_port, "HTTPS"@),
    ).push(port_row(config.api_port, "K8s API"@));
    (core + additional_port_rows(config.additional_ports@)).push(
        pending_row("pre_kubeconfig_dir"@, CAT_PREFLIGHT_CONFIG@, "Kubeconfig directory writable"@),
    ).push(pending_row("pre_certs_dir"@, CAT_PREFLIGHT_CONFIG@, "Certs directory writable"@))
}

/// Whether a test of the category `cat` failed.
pub open spec fn category_failed(rows: Seq<ResultView>, cat: Seq<char>) -> bool {
    exists|i: int|
        0 <= i < rows.len() && (#[trigger] rows[i]).category == cat && rows[i].status is Failed
}

/// Whether a test failed without which nothing else can work: Docker or kubectl.
pub open spec fn critical_failed(rows: Seq<ResultView>) -> bool {
    exists|i: int|
        0 <= i < rows.len() && ((#[trigger] rows[i]).id == "docker_accessible"@ || rows[i].id
            == "kubectl_installed"@) && rows[i].status is Failed
}

/// The status of the first test with the given id.
pub open spec fn status_of(rows: Seq<ResultView>, id: Seq<char>) -> Option<StatusView>
    decreases rows.len(),
{
    if rows.len() == 0 {
        None
    } else if rows[0].id == id {
        Some(rows[0].status)
    } else {
        status_of(rows.skip(1), id)
    }
}

/// Whether the test namespace was tried, with whatever outcome.
pub open spec fn setup_attempted(rows: Seq<ResultView>) -> bool {
    match status_of(rows, "deep_setup"@) {
        Some(s) => s is Passed || s is Failed,
        None => false,
    }
}

/// Whether the test namespace was created.
pub open spec fn setup_passed(rows: Seq<ResultView>) -> bool {
    match status_of(rows, "deep_setup"@) {
        Some(s) => s is Passed,
        None => false,
    }
}

/// Why test `i` of the full suite is to be skipped, given what the others came to.
pub open spec fn skip_reason(rows: Seq<ResultView>, i: int) -> Option<Seq<char>> {
    let id = rows[i].id;
    let cat = rows[i].category;
    if cat == CAT_PREREQUISITES@ {
        None
    } else if critical_failed(rows) {
        Some("prerequisite failed"@)
    } else if cat != CAT_CLUSTER@ && category_failed(rows, CAT_CLUSTER@) {
        Some("cluster not healthy"@)
    } else if cat != CAT_DEEP_VERIFICATION@ {
        None
    } else if category_failed(rows, CAT_CORE_SERVICES@) {
        Some("core services not healthy"@)
    } else if id == "deep_cleanup"@ {
        if setup_attempted(rows) {
            None
        } else {
            Some("setup not attempted"@)
        }
    } else if (id == "deep_dns"@ || id == "deep_connectivity"@ || id == "deep_volume"@)
        && !setup_passed(rows) {
        Some("setup failed"@)
    } else {
        None
    }
}

/// Why preflight test `i` is to be skipped.
pub open spec fn preflight_skip_reason(rows: Seq<ResultView>, i: int) -> Option<Seq<char>> {
    let cat = rows[i].category;
    let docker_ok = match status_of(rows, "pre_docker_accessible"@) {
        Some(s) => s is Passed,
        None => false,
    };
    if cat == CAT_PREFLIGHT_SYSTEM@ {
        None
    } else if !docker_ok && (cat == CAT_PREFLIGHT_DOCKER@ || cat == CAT_PREFLIGHT_PORTS@) {
        Some("Docker not accessible"@)
    } else {
        None
    }
}

/// The seconds that a test of the full suite may take.
pub open spec fn timeout_of(id: Seq<char>) -> u64 {
    if id == "host_ports_reachable"@ || id == "no_crash_loops"@ {
        15
    } else if id == "deep_setup"@ {
        60
    } else if id == "deep_dns"@ {
        90
    } else if id == "deep_connectivity"@ || id == "deep_volume"@ {
        120
    } else if id == "deep_host_http"@ || id == "deep_docker_in_container"@ || id
        == "deep_runtime_socket"@ || id == "deep_cleanup"@ {
        30
    } else {
        10
    }
}

// ---------------------------------------------------------------------------
// The lists of tests
// ---------------------------------------------------------------------------

impl DiagnosticResult {
    /// A test that has not been started.
    pub fn pending(id: &'static str, category: &'static str, name: String) -> (r: Self)
        ensures
            r@ == pending_row(id@, category@, name@),
    {
        DiagnosticResult { id, category, name, status: DiagnosticStatus::Pending, duration: None }
    }
}

/// Appends a test that has not been started.
fn push_row(
    out: &mut Vec<DiagnosticResult>,
    id: &'static str,
    category: &'static str,
    name: &str,
)
    ensures
        result_views(final(out)@) == result_views(old(out)@).push(pending_row(id@, category@, name@)),
{
    let ghost before = result_views(out@);
    out.push(DiagnosticResult::pending(id, category, name.to_owned()));
    assert(result_views(out@) =~= before.push(pending_row(id@, category@, name@)));
}

/// The tests of the full suite, none of them started.
pub fn build_test_list() -> (r: Vec<DiagnosticResult>)
    ensures
        result_views(r@) == test_rows(),
{
    let mut t: Vec<DiagnosticResult> = Vec::new();
    assert(result_views(t@) =~= Seq::<ResultView>::empty());
    push_row(&mut t, "docker_accessible", CAT_PREREQUISITES, "Docker accessible");
    push_row(&mut t, "kubectl_installed", CAT_PREREQUISITES, "kubectl installed");
    push_row(&mut t, "apparmor_check", CAT_PREREQUISITES, "AppArmor profile");
    push_row(&mut t, "br_netfilter_loaded", CAT_PREREQUISITES, "br_netfilter module");
    push_row(&mut t, "container_running", CAT_CLUSTER, "K3s container running");
    push_row(&mut t, "k8s_api_reachable", CAT_CLUSTER, "K8s API reachable");
    push_row(&mut t, "nodes_ready", CAT_CLUSTER, "Node(s) Ready");
    push_row(&mut t, "container_health", CAT_CLUSTER, "Container health");
    push_row(&mut t, "arch_mismatch", CAT_CLUSTER, "Architecture match");
    push_row(&mut t, "coredns_running", CAT_CORE_SERVICES, "CoreDNS running");
    push_row(&mut t, "traefik_service", CAT_CORE_SERVICES, "Traefik service exists");
    push_row(
        &mut t,
        "local_path_provisioner",
        CAT_CORE_SERVICES,
        "local-path-provisioner running",
    );
    push_row(&mut t, "flannel_running", CAT_CORE_SERVICES, "Flannel CNI configured");
    push_row(&mut t, "host_ports_reachable", CAT_NETWORKING, "Host ports reachable");
    push_row(&mut t, "ingress_configured", CAT_NETWORKING, "Ingress routes configured");
    push_row(&mut t, "hosts_uptodate", CAT_NETWORKING, "/etc/hosts up-to-date");
    push_row(&mut t, "ingress_healthy", CAT_NETWORKING, "Ingress endpoints healthy");
    push_row(&mut t, "tls_cert_valid", CAT_NETWORKING, "TLS certificate valid");
    push_row(&mut t, "no_stuck_pods", CAT_PODS, "No stuck pods");
    push_row(&mut t, "no_pull_errors", CAT_PODS, "No ImagePullBackOff");
    push_row(&mut t, "no_crash_loops", CAT_PODS, "No CrashLoopBackOff");
    push_row(&mut t, "node_conditions", CAT_PODS, "Node conditions healthy");
    push_row(&mut t, "deep_setup", CAT_DEEP_VERIFICATION, "Create test namespace");
    push_row(&mut t, "deep_dns", CAT_DEEP_VERIFICATION, "DNS resolution");
    push_row(&mut t, "deep_connectivity", CAT_DEEP_VERIFICATION, "Pod-to-Service connectivity");
    push_row(&mut t, "deep_volume", CAT_DEEP_VERIFICATION, "Volume write/read");
    push_row(&mut t, "deep_host_http", CAT_DEEP_VERIFICATION, "Host HTTP to Traefik");
    push_row(
        &mut t,
        "deep_docker_in_container",
        CAT_DEEP_VERIFICATION,
        "Docker socket in container",
    );
    push_row(&mut t, "deep_runtime_socket", CAT_DEEP_VERIFICATION, "Container runtime socket");
    push_row(&mut t, "deep_cleanup", CAT_DEEP_VERIFICATION, "Cleanup test resources");
    t
}

/// The name of the test of one port.
fn port_name(port: u16, label: &str) -> (r: String)
    ensures
        r@ == port_test_name(port as nat, label@),
{
    let mut s = "Port ".to_owned();
    s.append(u64_text(port as u64).as_str());
    s.append(" (");
    s.append(label);
    s.append(") available");
    s
}

/// The preflight tests for a configuration, none of them started.
pub fn build_preflight_list(config: &ClusterConfig) -> (r: Vec<DiagnosticResult>)
    ensures
        result_views(r@) == preflight_rows(*config),
{
    let mut t: Vec<DiagnosticResult> = Vec::new();
    assert(result_views(t@) =~= Seq::<ResultView>::empty());
    push_row(&mut t, "pre_docker_accessible", CAT_PREFLIGHT_SYSTEM, "Docker accessible");
    push_row(&mut t, "pre_kubectl_installed", CAT_PREFLIGHT_SYSTEM, "kubectl installed");
    push_row(&mut t, "pre_arch_check", CAT_PREFLIGHT_SYSTEM, "Architecture");
    push_row(&mut t, "pre_docker_info", CAT_PREFLIGHT_DOCKER, "Docker daemon healthy");
    push_row(&mut t, "pre_docker_disk", CAT_PREFLIGHT_DOCKER, "Docker disk space");
    push_row(&mut t, "pre_k3s_image", CAT_PREFLIGHT_DOCKER, "K3s image available");
    push_row(&mut t, "pre_container_conflict", CAT_PREFLIGHT_DOCKER, "No container name conflict");
    push_row(&mut t, "pre_network_conflict", CAT_PREFLIGHT_DOCKER, "No network name conflict");
    assert(result_views(t@) == fixed_preflight_rows());
    push_row(&mut t, "pre_port", CAT_PREFLIGHT_PORTS, port_name(config.http_port, "HTTP").as_str());
    push_row(&mut t, "pre_port", CAT_PREFLIGHT_PORTS, port_name(config.https_port, "HTTPS").as_str());
    push_row(&mut t, "pre_port", CAT_PREFLIGHT_PORTS, port_name(config.api_port, "K8s API").as_str());
    let ghost core = result_views(t@);
    let ghost more = additional_port_rows(config.additional_ports@);
    let mut i: usize = 0;
    assert(core + more.take(0) =~= core);
    while i < config.additional_ports.len()
        invariant
            i <= config.additional_ports@.len(),
            more == additional_port_rows(config.additional_ports@),
            result_views(t@) == core + more.take(i as int),
        decreases config.additional_ports@.len() - i,
    {
        let (host, _container) = config.additional_ports[i];
        push_row(&mut t, "pre_port", CAT_PREFLIGHT_PORTS, port_name(host, "additional").as_str());
        i = i + 1;
        assert(core + more.take(i as int) =~= (core + more.take(i - 1)).push(more[i - 1]));
    }
    assert(more.take(i as int) =~= more);
    push_row(
        &mut t,
        "pre_kubeconfig_dir",
        CAT_PREFLIGHT_CONFIG,
        "Kubeconfig directory writable",
    );
    push_row(&mut t, "pre_certs_dir", CAT_PREFLIGHT_CONFIG, "Certs directory writable");
    t
}

impl DiagnosticsReport {
    /// The full suite, none of its tests started.
    pub fn new() -> (r: Self)
        ensures
            result_views(r.results@) == test_rows(),
            !r.finished,
    {
        DiagnosticsReport { results: build_test_list(), finished: false }
    }
}

// ---------------------------------------------------------------------------
// Skipping
// ---------------------------------------------------------------------------

fn has_failed(s: &DiagnosticStatus) -> (r: bool)
    ensures
        r == (s@ is Failed),
{
    match s {
        DiagnosticStatus::Failed(_) => true,
        _ => false,
    }
}

fn has_passed(s: &DiagnosticStatus) -> (r: bool)
    ensures
        r == (s@ is Passed),
{
    match s {
        DiagnosticStatus::Passed => true,
        _ => false,
    }
}

fn any_failed_in(results: &Vec<DiagnosticResult>, cat: &str) -> (r: bool)
    ensures
        r == category_failed(result_views(results@), cat@),
{
    let ghost rows = result_views(results@);
    let mut i: usize = 0;
    while i < results.len()
        invariant
            i <= results@.len(),
            rows == result_views(results@),
            forall|j: int|
                0 <= j < i ==> !((#[trigger] rows[j]).category == cat@ && rows[j].status is Failed),
        decreases results@.len() - i,
    {
        assert(rows[i as int] == results@[i as int]@);
        if same(results[i].category, cat) && has_failed(&results[i].status) {
            return true;
        }
        i = i + 1;
    }
    false
}

fn any_critical_failed(results: &Vec<DiagnosticResult>) -> (r: bool)
    ensures
        r == critical_failed(result_views(results@)),
{
    let ghost rows = result_views(results@);
    let mut i: usize = 0;
    while i < results.len()
        invariant
            i <= results@.len(),
            rows == result_views(results@),
            forall|j: int|
                0 <= j < i ==> !(((#[trigger] rows[j]).id == "docker_accessible"@ || rows[j].id
                    == "kubectl_installed"@) && rows[j].status is Failed),
        decreases results@.len() - i,
    {
        assert(rows[i as int] == results@[i as int]@);
        if (same(results[i].id, "docker_accessible") || same(results[i].id, "kubectl_installed"))
            && has_failed(&results[i].status) {
            return true;
        }
        i = i + 1;
    }
    false
}

/// The index of the first test with the given id.
fn find_id(results: &Vec<DiagnosticResult>, id: &str) -> (r: Option<usize>)
    ensures
        match r {
            Some(i) => i < results@.len() && status_of(result_views(results@), id@) == Some(
                results@[i as int].status@,
            ),
            None => status_of(result_views(results@), id@) is None,
        },
{
    let ghost rows = result_views(results@);
    let mut i: usize = 0;
    assert(rows.skip(0) =~= rows);
    while i < results.len()
        invariant
            i <= results@.len(),
            rows == result_views(results@),
            status_of(rows, id@) == status_of(rows.skip(i as int), id@),
        decreases results@.len() - i,
    {
        assert(rows.skip(i as int)[0] == results@[i as int]@);
        assert(rows.skip(i as int).skip(1) =~= rows.skip(i + 1));
        if same(results[i].id, id) {
            return Some(i);
        }
        i = i + 1;
    }
    None
}

/// Why a test of the full suite is to be skipped, given what the earlier ones came to.
pub fn should_skip(report: &DiagnosticsReport, test_idx: usize) -> (r: Option<&'static str>)
    requires
        test_idx < report.results@.len(),
    ensures
        match r {
            Some(s) => skip_reason(result_views(report.results@), test_idx as int) == Some(s@),
            None => skip_reason(result_views(report.results@), test_idx as int) is None,
        },
{
    let id = report.results[test_idx].id;
    let cat = report.results[test_idx].category;
    let ghost rows = result_views(report.results@);
    assert(rows[test_idx as int] == report.results@[test_idx as int]@);
    if same(cat, CAT_PREREQUISITES) {
        return None;
    }
    if any_critical_failed(&report.results) {
        return Some("prerequisite failed");
    }
    if !same(cat, CAT_CLUSTER) && any_failed_in(&report.results, CAT_CLUSTER) {
        return Some("cluster not healthy");
    }
    if same(cat, CAT_DEEP_VERIFICATION) {
        if any_failed_in(&report.results, CAT_CORE_SERVICES) {
            return Some("core services not healthy");
        }
        if same(id, "deep_cleanup") {
            return match find_id(&report.results, "deep_setup") {
                Some(k) => if has_passed(&report.results[k].status) || has_failed(
                    &report.results[k].status,
                ) {
                    None
                } else {
                    Some("setup not attempted")
                },
                None => Some("setup not attempted"),
            };
        }
        if same(id, "deep_dns") || same(id, "deep_connectivity") || same(id, "deep_volume") {
            let ok = match find_id(&report.results, "deep_setup") {
                Some(k) => has_passed(&report.results[k].status),
                None => false,
            };
            if !ok {
                return Some("setup failed");
            }
        }
    }
    None
}

/// Why a preflight test is to be skipped: those on Docker and ports need Docker.
pub fn should_skip_preflight(report: &DiagnosticsReport, test_idx: usize) -> (r: Option<
    &'static str,
>)
    requires
        test_idx < report.results@.len(),
    ensures
        match r {
            Some(s) => preflight_skip_reason(result_views(report.results@), test_idx as int)
                == Some(s@),
            None => preflight_skip_reason(result_views(report.results@), test_idx as int) is None,
        },
{
    let cat = report.results[test_idx].category;
    assert(result_views(report.results@)[test_idx as int] == report.results@[test_idx as int]@);
    if same(cat, CAT_PREFLIGHT_SYSTEM) {
        return None;
    }
    let docker_ok = match find_id(&report.results, "pre_docker_accessible") {
        Some(k) => has_passed(&report.results[k].status),
        None => false,
    };
    if !docker_ok && (same(cat, CAT_PREFLIGHT_DOCKER) || same(cat, CAT_PREFLIGHT_PORTS)) {
        return Some("Docker not accessible");
    }
    None
}

/// The seconds that a test of the full suite may take.
pub fn test_timeout(test_id: &str) -> (secs: u64)
    ensures
        secs == timeout_of(test_id@),
{
    if same(test_id, "host_ports_reachable") || same(test_id, "no_crash_loops") {
        15
    } else if same(test_id, "deep_setup") {
        60
    } else if same(test_id, "deep_dns") {
        90
    } else if same(test_id, "deep_connectivity") || same(test_id, "deep_volume") {
        120
    } else if same(test_id, "deep_host_http") || same(test_id, "deep_docker_in_container") || same(
        test_id,
        "deep_runtime_socket",
    ) || same(test_id, "deep_cleanup") {
        30
    } else {
        10
    }
}

// ---------------------------------------------------------------------------
// Running a suite
// ---------------------------------------------------------------------------

/// Which suite runs.
#[derive(Clone, Copy, Debug, PartialEq, Eq, Structural)]
pub enum SuiteKind {
    Diagnostics,
    Preflight,
}

/// What the execution of one test came to.
#[derive(Clone, Debug)]
pub enum TestOutcome {
    Passed(Option<String>),
    Failed(String),
    TimedOut,
}

/// The text-valued counterpart of [`TestOutcome`].
pub enum OutcomeView {
    Passed(Option<Seq<char>>),
    Failed(Seq<char>),
    TimedOut,
}

impl View for TestOutcome {
    type V = OutcomeView;

    open spec fn view(&self) -> OutcomeView {
        match *self {
            TestOutcome::Passed(d) => OutcomeView::Passed(crate::text::opt_view(d)),
            TestOutcome::Failed(e) => OutcomeView::Failed(e@),
            TestOutcome::TimedOut => OutcomeView::TimedOut,
        }
    }
}

/// What to do next in a run.
#[derive(Clone, Debug)]
pub enum SuiteAction {
    /// A test was skipped: show the report.
    Skipped,
    /// Show the report, execute this test within the given time, and hand its outcome back.
    Run { id: &'static str, name: String, timeout_secs: u64 },
    /// All tests are done: show the report a last time.
    Finished,
}

/// A suite in progress: the tests before `next` are done.
#[derive(Clone, Debug)]
pub struct Suite {
    pub kind: SuiteKind,
    pub report: DiagnosticsReport,
    pub next: usize,
}

/// Whether a test is done.
pub open spec fn terminal(s: StatusView) -> bool {
    s is Passed || s is Failed || s is Skipped
}

/// Why test `i` is to be skipped in a suite of the given kind.
pub open spec fn suite_skip_reason(kind: SuiteKind, rows: Seq<ResultView>, i: int) -> Option<
    Seq<char>,
> {
    match kind {
        SuiteKind::Diagnostics => skip_reason(rows, i),
        SuiteKind::Preflight => preflight_skip_reason(rows, i),
    }
}

/// The seconds that a test may take in a suite of the given kind.
pub open spec fn suite_timeout(kind: SuiteKind, id: Seq<char>) -> u64 {
    match kind {
        SuiteKind::Diagnostics => timeout_of(id),
        SuiteKind::Preflight => 10,
    }
}

/// A test that was skipped for a reason.
pub open spec fn skipped_row(row: ResultView, reason: Seq<char>) -> ResultView {
    ResultView { status: StatusView::Skipped(reason), ..row }
}

/// A test that is being executed.
pub open spec fn started_row(row: ResultView) -> ResultView {
    ResultView { status: StatusView::Running, ..row }
}

/// A test after its execution: what it reports is added to its name where it passed, and is
/// the reason where it failed.
pub open spec fn completed_row(row: ResultView, outcome: OutcomeView, elapsed_ns: u64) -> ResultView {
    match outcome {
        OutcomeView::Passed(Some(detail)) => ResultView {
            name: row.name + " ("@ + detail + ")"@,
            status: StatusView::Passed,
            duration: Some(elapsed_ns),
            ..row
        },
        OutcomeView::Passed(None) => ResultView {
            status: StatusView::Passed,
            duration: Some(elapsed_ns),
            ..row
        },
        OutcomeView::Failed(e) => ResultView {
            status: StatusView::Failed(e),
            duration: Some(elapsed_ns),
            ..row
        },
        OutcomeView::TimedOut => ResultView {
            status: StatusView::Failed("timed out"@),
            duration: Some(elapsed_ns),
            ..row
        },
    }
}

/// The rows after the first `n` tests, where test `i` comes to `outcomes[i]` if it is executed.
pub open spec fn rows_after(
    kind: SuiteKind,
    rows: Seq<ResultView>,
    outcomes: Seq<(OutcomeView, u64)>,
    n: int,
) -> Seq<ResultView>
    decreases n,
{
    if n <= 0 {
        rows
    } else {
        let r = rows_after(kind, rows, outcomes, n - 1);
        match suite_skip_reason(kind, r, n - 1) {
            Some(reason) => r.update(n - 1, skipped_row(r[n - 1], reason)),
            None => r.update(
                n - 1,
                completed_row(started_row(r[n - 1]), outcomes[n - 1].0, outcomes[n - 1].1),
            ),
        }
    }
}

impl Suite {
    /// The rows of the report.
    pub open spec fn rows(&self) -> Seq<ResultView> {
        result_views(self.report.results@)
    }

    /// All tests before `next` are done, and a finished report has none left.
    pub open spec fn wf(&self) -> bool {
        &&& self.next <= self.report.results@.len()
        &&& forall|j: int| 0 <= j < self.next ==> terminal(#[trigger] self.rows()[j].status)
        &&& self.report.finished ==> self.next == self.report.results@.len()
    }

    /// The full suite, at its start.
    pub fn diagnostics() -> (r: Self)
        ensures
            r.wf(),
            r.kind == SuiteKind::Diagnostics,
            r.rows() == test_rows(),
            r.next == 0,
            !r.report.finished,
    {
        Suite { kind: SuiteKind::Diagnostics, report: DiagnosticsReport::new(), next: 0 }
    }

    /// The preflight suite for a configuration, at its start.
    pub fn preflight(config: &ClusterConfig) -> (r: Self)
        ensures
            r.wf(),
            r.kind == SuiteKind::Preflight,
            r.rows() == preflight_rows(*config),
            r.next == 0,
            !r.report.finished,
    {
        let report = DiagnosticsReport { results: build_preflight_list(config), finished: false };
        Suite { kind: SuiteKind::Preflight, report, next: 0 }
    }

    /// Turns to the next test: skips it, starts it, or finishes the report.
    pub fn advance(&mut self) -> (r: SuiteAction)
        requires
            old(self).wf(),
            !old(self).report.finished,
        ensures
            r is Finished <==> old(self).next == old(self).rows().len(),
            forall|j: int|
                0 <= j < old(self).rows().len() && j != old(self).next ==> (#[trigger] final(self).rows()[j])
                    == old(self).rows()[j],
            final(self).rows().len() == old(self).rows().len(),
            r is Skipped ==> final(self).rows()[old(self).next as int].status is Skipped,
            r is Run ==> final(self).rows()[old(self).next as int].status is Running,
            final(self).wf(),
            final(self).kind == old(self).kind,
            if old(self).next == old(self).rows().len() {
                &&& r is Finished
                &&& final(self).report.finished
                &&& final(self).rows() == old(self).rows()
                &&& final(self).next == old(self).next
            } else {
                let i = old(self).next as int;
                let row = old(self).rows()[i];
                &&& !final(self).report.finished
                &&& match suite_skip_reason(old(self).kind, old(self).rows(), i) {
                    Some(reason) => {
                        &&& r is Skipped
                        &&& final(self).rows() == old(self).rows().update(i, skipped_row(row, reason))
                        &&& final(self).next == i + 1
                    },
                    None => {
                        &&& r matches SuiteAction::Run { id, name, timeout_secs }
                        &&& id@ == row.id
                        &&& name@ == row.name
                        &&& timeout_secs == suite_timeout(old(self).kind, row.id)
                        &&& final(self).rows() == old(self).rows().update(i, started_row(row))
                        &&& final(self).next == i
                    },
                }
            },
    {
        let i: usize = self.next;
        if i == self.report.results.len() {
            self.report.finished = true;
            assert(self.rows() == old(self).rows());
            return SuiteAction::Finished;
        }
        let reason = match self.kind {
            SuiteKind::Diagnostics => should_skip(&self.report, i),
            SuiteKind::Preflight => should_skip_preflight(&self.report, i),
        };
        let ghost rows = self.rows();
        assert(rows[i as int] == self.report.results@[i as int]@);
        let id = self.report.results[i].id;
        let name = self.report.results[i].name.clone();
        let status = match reason {
            Some(s) => DiagnosticStatus::Skipped(s.to_owned()),
            None => DiagnosticStatus::Running,
        };
        let done = reason.is_some();
        let row = DiagnosticResult {
            id,
            category: self.report.results[i].category,
            name: name.clone(),
            status,
            duration: self.report.results[i].duration,
        };
        let ghost row_view = row@;
        self.report.results.set(i, row);
        assert(self.rows() =~= rows.update(i as int, row_view));
        if done {
            self.next = i + 1;
            SuiteAction::Skipped
        } else {
            let timeout_secs: u64 = match self.kind {
                SuiteKind::Diagnostics => test_timeout(id),
                SuiteKind::Preflight => 10,
            };
            SuiteAction::Run { id, name, timeout_secs }
        }
    }

    /// Takes the outcome of the test that was started.
    pub fn complete(&mut self, outcome: TestOutcome, elapsed_ns: u64)
        requires
            old(self).wf(),
            old(self).next < old(self).rows().len(),
            old(self).rows()[old(self).next as int].status is Running,
        ensures
            final(self).wf(),
            final(self).kind == old(self).kind,
            !final(self).report.finished,
            final(self).next == old(self).next + 1,
            final(self).rows() == old(self).rows().update(
                old(self).next as int,
                completed_row(old(self).rows()[old(self).next as int], outcome@, elapsed_ns),
            ),
    {
        let i: usize = self.next;
        let n: usize = self.report.results.len();
        let ghost rows = self.rows();
        assert(i < n);
        assert(rows[i as int] == self.report.results@[i as int]@);
        let mut name = self.report.results[i].name.clone();
        let status = match outcome {
            TestOutcome::Passed(Some(detail)) => {
                name.append(" (");
                name.append(detail.as_str());
                name.append(")");
                DiagnosticStatus::Passed
            },
            TestOutcome::Passed(None) => DiagnosticStatus::Passed,
            TestOutcome::Failed(e) => DiagnosticStatus::Failed(e),
            TestOutcome::TimedOut => DiagnosticStatus::Failed("timed out".to_owned()),
        };
        let row = DiagnosticResult {
            id: self.report.results[i].id,
            category: self.report.results[i].category,
            name,
            status,
            duration: Some(elapsed_ns),
        };
        let ghost row_view = row@;
        self.report.results.set(i, row);
        self.next = i + 1;
        assert(self.rows() =~= rows.update(i as int, row_view));
    }
}

// ---------------------------------------------------------------------------
// Laws
// ---------------------------------------------------------------------------

/// Whatever the tests come to, a run leaves every test done and none renumbered, renamed in its
/// id or moved to another category.
pub proof fn law_run_completes(
    kind: SuiteKind,
    rows: Seq<ResultView>,
    outcomes: Seq<(OutcomeView, u64)>,
    n: int,
)
    requires
        0 <= n <= rows.len(),
    ensures
        rows_after(kind, rows, outcomes, n).len() == rows.len(),
        forall|j: int|
            0 <= j < rows.len() ==> (#[trigger] rows_after(kind, rows, outcomes, n)[j]).id
                == rows[j].id && rows_after(kind, rows, outcomes, n)[j].category
                == rows[j].category,
        forall|j: int|
            0 <= j < n ==> terminal((#[trigger] rows_after(kind, rows, outcomes, n)[j]).status),
        forall|j: int|
            n <= j < rows.len() ==> #[trigger] rows_after(kind, rows, outcomes, n)[j] == rows[j],
    decreases n,
{
    if n > 0 {
        law_run_completes(kind, rows, outcomes, n - 1);
    }
}

/// A test that is done is not touched again for the rest of the run.
pub proof fn law_done_tests_stay(
    kind: SuiteKind,
    rows: Seq<ResultView>,
    outcomes: Seq<(OutcomeView, u64)>,
    m: int,
    n: int,
    j: int,
)
    requires
        0 <= j < m <= n <= rows.len(),
    ensures
        rows_after(kind, rows, outcomes, n)[j] == rows_after(kind, rows, outcomes, m)[j],
    decreases n - m,
{
    if m < n {
        law_done_tests_stay(kind, rows, outcomes, m, n - 1, j);
        law_run_completes(kind, rows, outcomes, n - 1);
    }
}

/// Prerequisite tests are never skipped.
pub proof fn law_prerequisites_always_run(rows: Seq<ResultView>, i: int)
    requires
        0 <= i < rows.len(),
        rows[i].category == CAT_PREREQUISITES@,
    ensures
        skip_reason(rows, i) is None,
{
}

/// A failed critical prerequisite skips every test outside the prerequisites.
pub proof fn law_critical_failure_skips_the_rest(rows: Seq<ResultView>, k: int, i: int)
    requires
        0 <= k < rows.len(),
        0 <= i < rows.len(),
        rows[k].id == "docker_accessible"@ || rows[k].id == "kubectl_installed"@,
        rows[k].status is Failed,
        rows[i].category != CAT_PREREQUISITES@,
    ensures
        skip_reason(rows, i) == Some("prerequisite failed"@),
{
}

/// Where nothing failed, only deep tests can be skipped, and only for want of the namespace.
pub proof fn law_nothing_failed_nothing_skipped(rows: Seq<ResultView>, i: int)
    requires
        0 <= i < rows.len(),
        forall|j: int| 0 <= j < rows.len() ==> !((#[trigger] rows[j]).status is Failed),
        setup_passed(rows),
    ensures
        skip_reason(rows, i) is None,
{
}

/// A failed advisory prerequisite (neither Docker nor kubectl) skips no cluster test.
pub proof fn law_advisory_failure_skips_no_cluster_test(rows: Seq<ResultView>, i: int)
    requires
        0 <= i < rows.len(),
        rows[i].category == CAT_CLUSTER@,
        !critical_failed(rows),
    ensures
        skip_reason(rows, i) is None,
{
    reveal_strlit("Cluster");
    reveal_strlit("Deep Verification");
    assert(CAT_CLUSTER@.len() != CAT_DEEP_VERIFICATION@.len());
}

/// Where the services below are healthy, the cleanup runs exactly if the setup was tried.
pub proof fn law_cleanup_follows_setup(rows: Seq<ResultView>, i: int)
    requires
        0 <= i < rows.len(),
        rows[i].id == "deep_cleanup"@,
        rows[i].category == CAT_DEEP_VERIFICATION@,
        !critical_failed(rows),
        !category_failed(rows, CAT_CLUSTER@),
        !category_failed(rows, CAT_CORE_SERVICES@),
    ensures
        skip_reason(rows, i) is None <==> setup_attempted(rows),
{
    reveal_strlit("Cluster");
    reveal_strlit("Prerequisites");
    reveal_strlit("Deep Verification");
    assert(CAT_PREREQUISITES@.len() != CAT_DEEP_VERIFICATION@.len());
}

/// The port that the name of a port test carries: its second word.
pub open spec fn port_in_name(name: Seq<char>) -> Option<nat> {
    let w = words(name);
    if w.len() >= 2 {
        number_upto(w[1], 65535)
    } else {
        None
    }
}

/// The port that the name of a port test carries.
pub fn port_of_test_name(name: &str) -> (r: Option<u16>)
    ensures
        match r {
            Some(p) => port_in_name(name@) == Some(p as nat),
            None => port_in_name(name@) is None,
        },
{
    let w = split_words(name);
    assert(views(w@).len() == w@.len());
    if w.len() >= 2 {
        assert(views(w@)[1] == w@[1]@);
        match parse_upto(w[1].as_str(), 65535) {
            Some(n) => Some(n as u16),
            None => None,
        }
    } else {
        None
    }
}

/// The name of a port test gives its port back, whatever its label.
pub proof fn law_port_name_reads_back(port: u16, label: Seq<char>)
    ensures
        port_in_name(port_test_name(port as nat, label)) == Some(port as nat),
{
    reveal_strlit("Port ");
    reveal_strlit(" (");
    reveal_strlit(") available");
    let d = decimal(port as nat);
    crate::number::lemma_decimal(port as nat);
    let head = "Port "@;
    let word = seq!['P', 'o', 'r', 't'];
    let mid = d + seq![' '];
    let tail = seq!['('] + label + ") available"@;
    assert(port_test_name(port as nat, label) =~= head + (mid + tail));
    crate::text::lemma_words_concat(head, mid + tail);
    crate::text::lemma_words_concat(mid, tail);
    assert(head =~= word + seq![' ']);
    assert(head.drop_last() =~= word);
    crate::text::lemma_words_single(word);
    assert(words(head) == words(word));
    assert(mid.drop_last() =~= d);
    assert forall|i: int| 0 <= i < d.len() implies !crate::text::white(#[trigger] d[i]) by {
        assert(crate::number::digit(d[i]));
    }
    crate::text::lemma_words_single(d);
    assert(words(mid) == words(d));
    assert(words(port_test_name(port as nat, label))[1] == d);
    crate::number::law_decimal_reads_back(port as nat, 65535);
}

/// A test passes exactly where its execution did, and fails for the reason that this gives; one that
/// takes too long fails. It stays the test that it is, and its duration is noted.
pub proof fn law_outcomes_decide(row: ResultView, outcome: OutcomeView, elapsed: u64)
    ensures
        completed_row(row, outcome, elapsed).status is Passed <==> outcome is Passed,
        completed_row(row, outcome, elapsed).status is Failed <==> !(outcome is Passed),
        outcome matches OutcomeView::Failed(e) ==> completed_row(row, outcome, elapsed).status
            == StatusView::Failed(e),
        completed_row(row, outcome, elapsed).duration == Some(elapsed),
        completed_row(row, outcome, elapsed).id == row.id,
        completed_row(row, outcome, elapsed).category == row.category,
        begins(completed_row(row, outcome, elapsed).name, row.name),
        outcome matches OutcomeView::Passed(Some(d)) ==> has_sub(
            completed_row(row, outcome, elapsed).name,
            d,
        ),
{
    let n = completed_row(row, outcome, elapsed).name;
    assert(n.subrange(0, row.name.len() as int) =~= row.name);
    if let OutcomeView::Passed(Some(d)) = outcome {
        lemma_has_middle(row.name + " ("@, d, ")"@, d);
    }
}

/// A run executes a test or skips it for its reason: a test that was not skipped came to what its
/// execution came to.
pub proof fn law_tests_come_to_their_outcomes(
    kind: SuiteKind,
    rows: Seq<ResultView>,
    outcomes: Seq<(OutcomeView, u64)>,
    n: int,
)
    requires
        0 < n <= rows.len(),
    ensures
        ({
            let before = rows_after(kind, rows, outcomes, n - 1);
            let done = rows_after(kind, rows, outcomes, n)[n - 1];
            &&& done.status is Skipped <==> suite_skip_reason(kind, before, n - 1) is Some
            &&& done.status is Passed <==> suite_skip_reason(kind, before, n - 1) is None
                && outcomes[n - 1].0 is Passed
            &&& done.status is Failed <==> suite_skip_reason(kind, before, n - 1) is None && !(
            outcomes[n - 1].0 is Passed)
        }),
{
    law_run_completes(kind, rows, outcomes, n - 1);
}

/// A cluster that is not healthy skips everything above it; services that are not healthy skip the
/// deep tests; and nothing but such trouble below skips a test.
pub proof fn law_trouble_below_skips(rows: Seq<ResultView>, i: int)
    requires
        0 <= i < rows.len(),
    ensures
        category_failed(rows, CAT_CLUSTER@) && rows[i].category != CAT_PREREQUISITES@
            && rows[i].category != CAT_CLUSTER@ ==> skip_reason(rows, i) is Some,
        category_failed(rows, CAT_CORE_SERVICES@) && rows[i].category == CAT_DEEP_VERIFICATION@
            ==> skip_reason(rows, i) is Some,
        !critical_failed(rows) && !category_failed(rows, CAT_CLUSTER@) && rows[i].category
            != CAT_DEEP_VERIFICATION@ ==> skip_reason(rows, i) is None,
        (rows[i].id == "deep_dns"@ || rows[i].id == "deep_connectivity"@ || rows[i].id
            == "deep_volume"@) && rows[i].category == CAT_DEEP_VERIFICATION@ && !setup_passed(rows)
            ==> skip_reason(rows, i) is Some,
{
    lemma_categories_differ();
    reveal_strlit("deep_dns");
    reveal_strlit("deep_connectivity");
    reveal_strlit("deep_volume");
    reveal_strlit("deep_cleanup");
    assert("deep_dns"@.len() == 8 && "deep_connectivity"@.len() == 17 && "deep_volume"@.len() == 11
        && "deep_cleanup"@.len() == 12);
}

proof fn lemma_categories_differ()
    ensures
        CAT_DEEP_VERIFICATION@ != CAT_PREREQUISITES@,
        CAT_DEEP_VERIFICATION@ != CAT_CLUSTER@,
        CAT_CLUSTER@ != CAT_PREREQUISITES@,
        CAT_PREFLIGHT_SYSTEM@ != CAT_PREFLIGHT_DOCKER@,
        CAT_PREFLIGHT_SYSTEM@ != CAT_PREFLIGHT_PORTS@,
{
    reveal_strlit("Prerequisites");
    reveal_strlit("Cluster");
    reveal_strlit("Deep Verification");
    reveal_strlit("System");
    reveal_strlit("Docker");
    reveal_strlit("Ports");
    assert(CAT_PREREQUISITES@.len() == 13 && CAT_CLUSTER@.len() == 7);
    assert(CAT_DEEP_VERIFICATION@.len() == 17);
    assert(CAT_PREFLIGHT_SYSTEM@[0] == 'S' && CAT_PREFLIGHT_DOCKER@[0] == 'D');
    assert(CAT_PREFLIGHT_PORTS@[0] == 'P');
}

proof fn lemma_status_of(rows: Seq<ResultView>, id: Seq<char>)
    ensures
        match status_of(rows, id) {
            Some(s) => exists|i: int|
                0 <= i < rows.len() && (#[trigger] rows[i]).id == id && rows[i].status == s && forall|
                    j: int,
                |
                    0 <= j < i ==> (#[trigger] rows[j]).id != id,
            None => forall|i: int| 0 <= i < rows.len() ==> (#[trigger] rows[i]).id != id,
        },
    decreases rows.len(),
{
    if rows.len() > 0 && rows[0].id != id {
        let r = rows.skip(1);
        lemma_status_of(r, id);
        if let Some(s) = status_of(r, id) {
            let i = choose|i: int|
                0 <= i < r.len() && (#[trigger] r[i]).id == id && r[i].status == s && forall|j: int|
                    0 <= j < i ==> (#[trigger] r[j]).id != id;
            assert(rows[i + 1] == r[i]);
            assert forall|j: int| 0 <= j < i + 1 implies (#[trigger] rows[j]).id != id by {
                if j > 0 {
                    assert(r[j - 1] == rows[j]);
                }
            }
        } else {
            assert forall|i: int| 0 <= i < rows.len() implies (#[trigger] rows[i]).id != id by {
                if i > 0 {
                    assert(r[i - 1] == rows[i]);
                }
            }
        }
    }
}

/// Before a start, the tests on Docker and on ports run exactly where Docker was found to answer; those
/// on this machine and its configuration always run.
pub proof fn law_preflight_needs_docker(rows: Seq<ResultView>, i: int, k: int)
    requires
        0 <= i < rows.len(),
    ensures
        rows[i].category != CAT_PREFLIGHT_DOCKER@ && rows[i].category != CAT_PREFLIGHT_PORTS@
            ==> preflight_skip_reason(rows, i) is None,
        0 <= k < rows.len() && rows[k].id == "pre_docker_accessible"@ && (forall|j: int|
            0 <= j < k ==> (#[trigger] rows[j]).id != "pre_docker_accessible"@) && (rows[i].category
            == CAT_PREFLIGHT_DOCKER@ || rows[i].category == CAT_PREFLIGHT_PORTS@) ==> (
        preflight_skip_reason(rows, i) is None <==> rows[k].status is Passed),
{
    lemma_categories_differ();
    lemma_status_of(rows, "pre_docker_accessible"@);
}

/// Every port of a configuration is tested before a start: those of the cluster and the additional
/// ones.
pub proof fn law_all_ports_are_tested(config: ClusterConfig, i: int)
    ensures
        preflight_rows(config).contains(port_row(config.http_port, "HTTP"@)),
        preflight_rows(config).contains(port_row(config.https_port, "HTTPS"@)),
        preflight_rows(config).contains(port_row(config.api_port, "K8s API"@)),
        0 <= i < config.additional_ports@.len() ==> preflight_rows(config).contains(
            port_row(config.additional_ports@[i].0, "additional"@),
        ),
        forall|j: int|
            0 <= j < preflight_rows(config).len() ==> (#[trigger] preflight_rows(config)[j]).status
                is Pending,
{
    let r = preflight_rows(config);
    assert(r[8] == port_row(config.http_port, "HTTP"@));
    assert(r[9] == port_row(config.https_port, "HTTPS"@));
    assert(r[10] == port_row(config.api_port, "K8s API"@));
    if 0 <= i < config.additional_ports@.len() {
        assert(r[11 + i] == additional_port_rows(config.additional_ports@)[i]);
    }
}

/// Every test has some time, and none more than two minutes.
pub proof fn law_tests_have_time(kind: SuiteKind, id: Seq<char>)
    ensures
        10 <= suite_timeout(kind, id) <= 120,
{
}

/// The port of a test is the second word of its name, where that is the number of one.
pub proof fn law_second_word_is_the_port(name: Seq<char>)
    ensures
        words(name).len() >= 2 ==> port_in_name(name) == number_upto(words(name)[1], 65535),
        words(name).len() < 2 ==> port_in_name(name) is None,
{
}

/// Tests that have to wait for pods have the time for it, and all others ten seconds.
pub proof fn law_slow_tests_have_more_time(id: Seq<char>)
    ensures
        id == "host_ports_reachable"@ || id == "no_crash_loops"@ ==> suite_timeout(
            SuiteKind::Diagnostics,
            id,
        ) == 15,
        id == "deep_setup"@ ==> suite_timeout(SuiteKind::Diagnostics, id) == 60,
        id == "deep_dns"@ ==> suite_timeout(SuiteKind::Diagnostics, id) == 90,
        id == "deep_connectivity"@ || id == "deep_volume"@ ==> suite_timeout(
            SuiteKind::Diagnostics,
            id,
        ) == 120,
        id == "deep_host_http"@ || id == "deep_docker_in_container"@ || id
            == "deep_runtime_socket"@ || id == "deep_cleanup"@ ==> suite_timeout(
            SuiteKind::Diagnostics,
            id,
        ) == 30,
        id.len() < 8 || id.len() > 24 ==> suite_timeout(SuiteKind::Diagnostics, id) == 10,
        suite_timeout(SuiteKind::Preflight, id) == 10,
{
    reveal_strlit("host_ports_reachable");
    reveal_strlit("no_crash_loops");
    reveal_strlit("deep_setup");
    reveal_strlit("deep_dns");
    reveal_strlit("deep_connectivity");
    reveal_strlit("deep_volume");
    reveal_strlit("deep_host_http");
    reveal_strlit("deep_docker_in_container");
    reveal_strlit("deep_runtime_socket");
    reveal_strlit("deep_cleanup");
    assert("host_ports_reachable"@.len() == 20 && "no_crash_loops"@.len() == 14);
    assert("deep_setup"@.len() == 10 && "deep_dns"@.len() == 8 && "deep_connectivity"@.len() == 17);
    assert("deep_volume"@.len() == 11 && "deep_host_http"@.len() == 14);
    assert("deep_docker_in_container"@.len() == 24 && "deep_runtime_socket"@.len() == 19);
    assert("deep_cleanup"@.len() == 12);
    assert("no_crash_loops"@[0] == 'n' && "deep_host_http"@[0] == 'd');
}

/// The tests come by category, what others need first, and none has been started: setting up precedes
/// and cleaning up follows the tests that need what was set up.
pub proof fn law_tests_come_by_category(i: int)
    requires
        0 <= i < test_rows().len(),
    ensures
        test_rows().len() == 30,
        test_rows()[i].category == if i < 4 {
            "Prerequisites"@
        } else if i < 9 {
            "Cluster"@
        } else if i < 13 {
            "Core Services"@
        } else if i < 18 {
            "Networking"@
        } else if i < 22 {
            "Pods"@
        } else {
            "Deep Verification"@
        },
        test_rows()[i].status == StatusView::Pending && test_rows()[i].duration is None,
        test_rows()[22].id == "deep_setup"@,
        test_rows()[29].id == "deep_cleanup"@,
        test_rows()[0].id == "docker_accessible"@,
{
    let r = test_rows();
    assert(r.len() == 30);
    if i < 8 {
        assert(i == 0 || i == 1 || i == 2 || i == 3 || i == 4 || i == 5 || i == 6 || i == 7);
    } else if i < 16 {
        assert(i == 8 || i == 9 || i == 10 || i == 11 || i == 12 || i == 13 || i == 14 || i == 15);
    } else if i < 24 {
        assert(i == 16 || i == 17 || i == 18 || i == 19 || i == 20 || i == 21 || i == 22 || i == 23);
    } else {
        assert(i == 24 || i == 25 || i == 26 || i == 27 || i == 28 || i == 29);
    }
}

/// So do those before a start: the machine, Docker, the ports and the directories.
pub proof fn law_preflight_tests_come_by_category(config: ClusterConfig, i: int)
    requires
        0 <= i < preflight_rows(config).len(),
    ensures
        preflight_rows(config).len() == config.additional_ports@.len() + 13,
        preflight_rows(config)[i].category == if i < 3 {
            "System"@
        } else if i < 8 {
            "Docker"@
        } else if i < preflight_rows(config).len() - 2 {
            "Ports"@
        } else {
            "Configuration"@
        },
        preflight_rows(config)[i].status == StatusView::Pending,
        preflight_rows(config)[0].id == "pre_docker_accessible"@,
{
    let r = preflight_rows(config);
    let n = config.additional_ports@.len() as int;
    assert(r.len() == 13 + n);
    if 11 <= i < 11 + n {
        assert(r[i] == additional_port_rows(config.additional_ports@)[i - 11]);
    } else {
        assert(i == 0 || i == 1 || i == 2 || i == 3 || i == 4 || i == 5 || i == 6 || i == 7 || i == 8
            || i == 9 || i == 10 || i == 11 + n || i == 12 + n);
    }
}

} // verus!
