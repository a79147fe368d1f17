//! From the id of a test to what it has to find out, and from what was found to its verdict.

use vstd::prelude::*;
use crate::cluster::certificate::{certificate_verdict, check_tls_certificate, CertificateFiles};
use crate::cluster::checks::{
    api_verdict, apparmor_verdict, arch_verdict, br_netfilter_verdict, check_apparmor,
    check_api_reachable, check_arch_mismatch, check_br_netfilter, check_container_health,
    check_container_running, check_coredns_running, check_docker_accessible, check_flannel_config,
    check_flannel_subnet, check_host_ports, check_hosts_uptodate, check_ingress_configured,
    check_ingress_entries, check_ingress_health, check_kubectl_installed,
    check_local_path_provisioner, check_no_crash_loops, check_no_pull_errors, check_no_stuck_pods,
    check_node_conditions, check_nodes_ready, check_traefik_service, container_health_verdict,
    container_running_verdict, coredns_verdict, crash_loops_verdict, failed_with,
    flannel_config_failure, flannel_verdict, host_ports_verdict, hosts_verdict,
    ingress_configured_verdict, ingress_entries_failure, ingress_health_verdict,
    law_endpoints_in_error_fail,
    node_conditions_verdict, nodes_verdict, presence_verdict, provisioner_verdict,
    pull_errors_verdict, stuck_pods_verdict, traefik_verdict, verdict, NodeCondition, NodeStatus,
    PodStates, Reply, Verdict, VerdictView, WaitingPod,
};
use crate::cluster::config::ClusterConfig;
use crate::cluster::diagnostics::{additional_port_rows, preflight_rows, test_rows};
use crate::cluster::deep::{
    check_cleanup, check_docker_in_container, check_host_http, check_runtime_socket,
    cleanup_verdict, docker_socket_verdict, host_http_verdict, runtime_socket_verdict,
    DeletionReply,
};
use crate::cluster::ingress::IngressHealthStatus;
use crate::cluster::preflight::{
    bind_verdict, check_container_conflict, check_directory, check_docker_disk, check_docker_info,
    check_k3s_image, check_network_conflict, check_port_bind, check_port_connect, connect_verdict,
    container_conflict_verdict, daemon_verdict, directory_verdict, disk_verdict, image_verdict,
    network_conflict_verdict, DaemonInfo, DirectoryState, DiskInfo,
};
use crate::text::{has_sub, same, trimmed};

verus! {

/// What a test of the full suite looks at.
#[derive(Clone, Copy, Debug, PartialEq, Eq, Structural)]
pub enum Probe {
    DockerAccessible,
    KubectlInstalled,
    AppArmor,
    BrNetfilter,
    ContainerRunning,
    ApiReachable,
    NodesReady,
    ContainerHealth,
    ArchMismatch,
    CoreDns,
    TraefikService,
    Provisioner,
    Flannel,
    HostPorts,
    IngressConfigured,
    HostsUpToDate,
    IngressHealthy,
    TlsCertificate,
    StuckPods,
    PullErrors,
    CrashLoops,
    NodeConditions,
    DeepSetup,
    DeepDns,
    DeepConnectivity,
    DeepVolume,
    DeepHostHttp,
    DeepDockerInContainer,
    DeepRuntimeSocket,
    DeepCleanup,
    Unknown,
}

/// What a preflight test looks at.
#[derive(Clone, Copy, Debug, PartialEq, Eq, Structural)]
pub enum PreflightProbe {
    DockerAccessible,
    KubectlInstalled,
    ArchCheck,
    DockerInfo,
    DockerDisk,
    K3sImage,
    ContainerConflict,
    NetworkConflict,
    Port,
    KubeconfigDir,
    CertsDir,
    Unknown,
}

/// What the test with the given id looks at.
pub open spec fn probe_for(id: Seq<char>) -> Probe {
    if id == "docker_accessible"@ {
        Probe::DockerAccessible
    } else if id == "kubectl_installed"@ {
        Probe::KubectlInstalled
    } else if id == "apparmor_check"@ {
        Probe::AppArmor
    } else if id == "br_netfilter_loaded"@ {
        Probe::BrNetfilter
    } else if id == "container_running"@ {
        Probe::ContainerRunning
    } else if id == "k8s_api_reachable"@ {
        Probe::ApiReachable
    } else if id == "nodes_ready"@ {
        Probe::NodesReady
    } else if id == "container_health"@ {
        Probe::ContainerHealth
    } else if id == "arch_mismatch"@ {
        Probe::ArchMismatch
    } else if id == "coredns_running"@ {
        Probe::CoreDns
    } else if id == "traefik_service"@ {
        Probe::TraefikService
    } else if id == "local_path_provisioner"@ {
        Probe::Provisioner
    } else if id == "flannel_running"@ {
        Probe::Flannel
    } else if id == "host_ports_reachable"@ {
        Probe::HostPorts
    } else if id == "ingress_configured"@ {
        Probe::IngressConfigured
    } else if id == "hosts_uptodate"@ {
        Probe::HostsUpToDate
    } else if id == "ingress_healthy"@ {
        Probe::IngressHealthy
    } else if id == "tls_cert_valid"@ {
        Probe::TlsCertificate
    } else if id == "no_stuck_pods"@ {
        Probe::StuckPods
    } else if id == "no_pull_errors"@ {
        Probe::PullErrors
    } else if id == "no_crash_loops"@ {
        Probe::CrashLoops
    } else if id == "node_conditions"@ {
        Probe::NodeConditions
    } else if id == "deep_setup"@ {
        Probe::DeepSetup
    } else if id == "deep_dns"@ {
        Probe::DeepDns
    } else if id == "deep_connectivity"@ {
        Probe::DeepConnectivity
    } else if id == "deep_volume"@ {
        Probe::DeepVolume
    } else if id == "deep_host_http"@ {
        Probe::DeepHostHttp
    } else if id == "deep_docker_in_container"@ {
        Probe::DeepDockerInContainer
    } else if id == "deep_runtime_socket"@ {
        Probe::DeepRuntimeSocket
    } else if id == "deep_cleanup"@ {
        Probe::DeepCleanup
    } else {
        Probe::Unknown
    }
}

/// What the test with the given id looks at.
pub fn probe_of(id: &str) -> (r: Probe)
    ensures
        r == probe_for(id@),
{
    if same(id, "docker_accessible") {
        Probe::DockerAccessible
    } else if same(id, "kubectl_installed") {
        Probe::KubectlInstalled
    } else if same(id, "apparmor_check") {
        Probe::AppArmor
    } else if same(id, "br_netfilter_loaded") {
        Probe::BrNetfilter
    } else if same(id, "container_running") {
        Probe::ContainerRunning
    } else if same(id, "k8s_api_reachable") {
        Probe::ApiReachable
    } else if same(id, "nodes_ready") {
        Probe::NodesReady
    } else if same(id, "container_health") {
        Probe::ContainerHealth
    } else if same(id, "arch_mismatch") {
        Probe::ArchMismatch
    } else if same(id, "coredns_running") {
        Probe::CoreDns
    } else if same(id, "traefik_service") {
        Probe::TraefikService
    } else if same(id, "local_path_provisioner") {
        Probe::Provisioner
    } else if same(id, "flannel_running") {
        Probe::Flannel
    } else if same(id, "host_ports_reachable") {
        Probe::HostPorts
    } else if same(id, "ingress_configured") {
        Probe::IngressConfigured
    } else if same(id, "hosts_uptodate") {
        Probe::HostsUpToDate
    } else if same(id, "ingress_healthy") {
        Probe::IngressHealthy
    } else if same(id, "tls_cert_valid") {
        Probe::TlsCertificate
    } else if same(id, "no_stuck_pods") {
        Probe::StuckPods
    } else if same(id, "no_pull_errors") {
        Probe::PullErrors
    } else if same(id, "no_crash_loops") {
        Probe::CrashLoops
    } else if same(id, "node_conditions") {
        Probe::NodeConditions
    } else if same(id, "deep_setup") {
        Probe::DeepSetup
    } else if same(id, "deep_dns") {
        Probe::DeepDns
    } else if same(id, "deep_connectivity") {
        Probe::DeepConnectivity
    } else if same(id, "deep_volume") {
        Probe::DeepVolume
    } else if same(id, "deep_host_http") {
        Probe::DeepHostHttp
    } else if same(id, "deep_docker_in_container") {
        Probe::DeepDockerInContainer
    } else if same(id, "deep_runtime_socket") {
        Probe::DeepRuntimeSocket
    } else if same(id, "deep_cleanup") {
        Probe::DeepCleanup
    } else {
        Probe::Unknown
    }
}

/// What the preflight test with the given id looks at.
pub open spec fn preflight_probe_for(id: Seq<char>) -> PreflightProbe {
    if id == "pre_docker_accessible"@ {
        PreflightProbe::DockerAccessible
    } else if id == "pre_kubectl_installed"@ {
        PreflightProbe::KubectlInstalled
    } else if id == "pre_arch_check"@ {
        PreflightProbe::ArchCheck
    } else if id == "pre_docker_info"@ {
        PreflightProbe::DockerInfo
    } else if id == "pre_docker_disk"@ {
        PreflightProbe::DockerDisk
    } else if id == "pre_k3s_image"@ {
        PreflightProbe::K3sImage
    } else if id == "pre_container_conflict"@ {
        PreflightProbe::ContainerConflict
    } else if id == "pre_network_conflict"@ {
        PreflightProbe::NetworkConflict
    } else if id == "pre_port"@ {
        PreflightProbe::Port
    } else if id == "pre_kubeconfig_dir"@ {
        PreflightProbe::KubeconfigDir
    } else if id == "pre_certs_dir"@ {
        PreflightProbe::CertsDir
    } else {
        PreflightProbe::Unknown
    }
}

/// What the preflight test with the given id looks at.
pub fn preflight_probe_of(id: &str) -> (r: PreflightProbe)
    ensures
        r == preflight_probe_for(id@),
{
    if same(id, "pre_docker_accessible") {
        PreflightProbe::DockerAccessible
    } else if same(id, "pre_kubectl_installed") {
        PreflightProbe::KubectlInstalled
    } else if same(id, "pre_arch_check") {
        PreflightProbe::ArchCheck
    } else if same(id, "pre_docker_info") {
        PreflightProbe::DockerInfo
    } else if same(id, "pre_docker_disk") {
        PreflightProbe::DockerDisk
    } else if same(id, "pre_k3s_image") {
        PreflightProbe::K3sImage
    } else if same(id, "pre_container_conflict") {
        PreflightProbe::ContainerConflict
    } else if same(id, "pre_network_conflict") {
        PreflightProbe::NetworkConflict
    } else if same(id, "pre_port") {
        PreflightProbe::Port
    } else if same(id, "pre_kubeconfig_dir") {
        PreflightProbe::KubeconfigDir
    } else if same(id, "pre_certs_dir") {
        PreflightProbe::CertsDir
    } else {
        PreflightProbe::Unknown
    }
}

/// The commands that a probe runs in a shell inside the K3s container.
pub open spec fn container_scripts(p: Probe) -> Seq<Seq<char>> {
    match p {
        Probe::Flannel => seq![
            "test -f /var/lib/rancher/k3s/agent/etc/cni/net.d/10-flannel.conflist && echo 'ok' || echo 'missing'"@,
            "cat /run/flannel/subnet.env 2>/dev/null || echo 'missing'"@,
        ],
        Probe::DeepDockerInContainer => seq![
            "test -S /var/run/docker.sock && echo 'ok' || echo 'missing'"@,
        ],
        Probe::DeepRuntimeSocket => seq![
            "test -S /proc/1/root/run/docker.sock && echo 'ok' || echo 'missing'"@,
        ],
        _ => seq![],
    }
}

/// The commands that a probe runs in a shell inside the K3s container, in order.
pub fn scripts_of(p: Probe) -> (r: Vec<&'static str>)
    ensures
        r@.len() == container_scripts(p).len(),
        forall|i: int| 0 <= i < r@.len() ==> (#[trigger] r@[i])@ == container_scripts(p)[i],
{
    let mut v: Vec<&'static str> = Vec::new();
    match p {
        Probe::Flannel => {
            v.push(
                "test -f /var/lib/rancher/k3s/agent/etc/cni/net.d/10-flannel.conflist && echo 'ok' || echo 'missing'",
            );
            v.push("cat /run/flannel/subnet.env 2>/dev/null || echo 'missing'");
        },
        Probe::DeepDockerInContainer => {
            v.push("test -S /var/run/docker.sock && echo 'ok' || echo 'missing'");
        },
        Probe::DeepRuntimeSocket => {
            v.push("test -S /proc/1/root/run/docker.sock && echo 'ok' || echo 'missing'");
        },
        _ => {},
    }
    v
}

/// The namespace and the label selector of the pods that a probe lists.
pub fn pod_selector(p: Probe) -> (r: Option<(&'static str, &'static str)>)
    ensures
        match p {
            Probe::CoreDns => r matches Some(s) && s.0@ == "kube-system"@ && s.1@
                == "k8s-app=kube-dns"@,
            Probe::Provisioner => r matches Some(s) && s.0@ == "kube-system"@ && s.1@
                == "app=local-path-provisioner"@,
            _ => r is None,
        },
{
    match p {
        Probe::CoreDns => Some(("kube-system", "k8s-app=kube-dns")),
        Probe::Provisioner => Some(("kube-system", "app=local-path-provisioner")),
        _ => None,
    }
}

/// The pods of all namespaces, or what kept them from being listed.
#[derive(Clone, Debug)]
pub enum PodListing {
    Unavailable(String),
    NamespacesFailed(String),
    PodsFailed(String, String),
    Got(Vec<PodStates>),
}

/// What a test of the full suite found.
#[derive(Debug)]
pub enum TestFacts {
    DockerAccessible(Result<bool, String>),
    KubectlInstalled(Result<bool, String>),
    AppArmor { linux: bool, active: bool, profiles: String },
    BrNetfilter { linux: bool, modules: String, sysctl: String },
    ContainerRunning(Result<bool, String>),
    ApiReachable(Result<bool, String>),
    NodesReady(Result<Vec<NodeStatus>, String>),
    ContainerHealth(Reply<(Option<i64>, Option<String>)>),
    ArchMismatch { arch: Reply<Option<String>>, binary: String, macos: bool },
    CoreDns(Reply<Vec<String>>),
    TraefikService(bool),
    Provisioner(Reply<Vec<String>>),
    Flannel { config: Reply<String>, subnet: Reply<String> },
    HostPorts { http: bool, https: bool, api: bool },
    IngressConfigured(Result<usize, String>),
    HostsUpToDate(Result<Vec<String>, String>),
    IngressHealthy { entries: Result<usize, String>, health: Vec<(String, IngressHealthStatus)> },
    TlsCertificate { files: CertificateFiles, now: i64 },
    StuckPods(Reply<Vec<String>>),
    PullErrors(Reply<Vec<WaitingPod>>),
    CrashLoops(PodListing),
    NodeConditions(Reply<Vec<NodeCondition>>),
    /// What a script of the deep tests came to.
    Script(Verdict),
    DeepHostHttp { url: String, status: Reply<u16> },
    DeepDockerInContainer(Reply<String>),
    DeepRuntimeSocket(Option<Reply<String>>),
    DeepCleanup(DeletionReply),
    /// There is no test with this id.
    Unknown(String),
}

pub open spec fn pod_listing_verdict(p: PodListing) -> VerdictView {
    match p {
        PodListing::Unavailable(e) => Err("client init failed: "@ + e@),
        PodListing::NamespacesFailed(e) => Err("failed to list namespaces: "@ + e@),
        PodListing::PodsFailed(ns, e) => Err("failed to list pods in "@ + ns@ + ": "@ + e@),
        PodListing::Got(v) => crash_loops_verdict(v@),
    }
}

/// The verdict on what a test found.
pub open spec fn test_verdict(facts: TestFacts, config: ClusterConfig) -> VerdictView {
    match facts {
        TestFacts::DockerAccessible(r) => presence_verdict(r, "Docker daemon not reachable"@),
        TestFacts::KubectlInstalled(r) => presence_verdict(r, "kubectl not found in PATH"@),
        TestFacts::AppArmor { linux, active, profiles } => apparmor_verdict(linux, active, profiles@),
        TestFacts::BrNetfilter { linux, modules, sysctl } => br_netfilter_verdict(
            linux,
            modules@,
            sysctl@,
        ),
        TestFacts::ContainerRunning(r) => container_running_verdict(r, config.container_name@),
        TestFacts::ApiReachable(r) => api_verdict(r),
        TestFacts::NodesReady(r) => nodes_verdict(r),
        TestFacts::ContainerHealth(r) => container_health_verdict(r),
        TestFacts::ArchMismatch { arch, binary, macos } => arch_verdict(arch, binary@, macos),
        TestFacts::CoreDns(r) => coredns_verdict(r),
        TestFacts::TraefikService(b) => traefik_verdict(b),
        TestFacts::Provisioner(r) => provisioner_verdict(r),
        TestFacts::Flannel { config: c, subnet } => match flannel_config_failure(c) {
            Some(e) => Err(e),
            None => flannel_verdict(subnet),
        },
        TestFacts::HostPorts { http, https, api } => host_ports_verdict(config, http, https, api),
        TestFacts::IngressConfigured(r) => ingress_configured_verdict(r),
        TestFacts::HostsUpToDate(r) => hosts_verdict(r),
        TestFacts::IngressHealthy { entries, health } => match ingress_entries_failure(entries) {
            Some(e) => Err(e),
            None => ingress_health_verdict(health@),
        },
        TestFacts::TlsCertificate { files, now } => certificate_verdict(files, now as int),
        TestFacts::StuckPods(r) => stuck_pods_verdict(r),
        TestFacts::PullErrors(r) => pull_errors_verdict(r),
        TestFacts::CrashLoops(p) => pod_listing_verdict(p),
        TestFacts::NodeConditions(r) => node_conditions_verdict(r),
        TestFacts::Script(v) => verdict(v),
        TestFacts::DeepHostHttp { url, status } => host_http_verdict(url@, status),
        TestFacts::DeepDockerInContainer(r) => docker_socket_verdict(r),
        TestFacts::DeepRuntimeSocket(r) => runtime_socket_verdict(r),
        TestFacts::DeepCleanup(d) => cleanup_verdict(d),
        TestFacts::Unknown(id) => Err("unknown test: "@ + id@),
    }
}

fn check_pod_listing(p: &PodListing) -> (r: Verdict)
    ensures
        verdict(r) == pod_listing_verdict(*p),
{
    match p {
        PodListing::Unavailable(e) => failed_with("client init failed: ", e.as_str()),
        PodListing::NamespacesFailed(e) => failed_with("failed to list namespaces: ", e.as_str()),
        PodListing::PodsFailed(ns, e) => {
            let mut s = "failed to list pods in ".to_owned();
            s.append(ns.as_str());
            s.append(": ");
            s.append(e.as_str());
            Err(s)
        },
        PodListing::Got(v) => check_no_crash_loops(v),
    }
}

/// The verdict on what a test of the full suite found: passed, perhaps with a detail, or failed
/// for a reason.
pub fn execute_test(facts: TestFacts, config: &ClusterConfig) -> (r: Verdict)
    ensures
        verdict(r) == test_verdict(facts, *config),
{
    match facts {
        TestFacts::DockerAccessible(r) => check_docker_accessible(&r),
        TestFacts::KubectlInstalled(r) => check_kubectl_installed(&r),
        TestFacts::AppArmor { linux, active, profiles } => check_apparmor(
            linux,
            active,
            profiles.as_str(),
        ),
        TestFacts::BrNetfilter { linux, modules, sysctl } => check_br_netfilter(
            linux,
            modules.as_str(),
            sysctl.as_str(),
        ),
        TestFacts::ContainerRunning(r) => check_container_running(&r, config.container_name.as_str()),
        TestFacts::ApiReachable(r) => check_api_reachable(&r),
        TestFacts::NodesReady(r) => check_nodes_ready(&r),
        TestFacts::ContainerHealth(r) => check_container_health(&r),
        TestFacts::ArchMismatch { arch, binary, macos } => check_arch_mismatch(
            &arch,
            binary.as_str(),
            macos,
        ),
        TestFacts::CoreDns(r) => check_coredns_running(&r),
        TestFacts::TraefikService(b) => check_traefik_service(b),
        TestFacts::Provisioner(r) => check_local_path_provisioner(&r),
        TestFacts::Flannel { config: c, subnet } => match check_flannel_config(&c) {
            Some(e) => Err(e),
            None => check_flannel_subnet(&subnet),
        },
        TestFacts::HostPorts { http, https, api } => check_host_ports(config, http, https, api),
        TestFacts::IngressConfigured(r) => check_ingress_configured(&r),
        TestFacts::HostsUpToDate(r) => check_hosts_uptodate(&r),
        TestFacts::IngressHealthy { entries, health } => match check_ingress_entries(&entries) {
            Some(e) => Err(e),
            None => check_ingress_health(&health),
        },
        TestFacts::TlsCertificate { files, now } => check_tls_certificate(&files, now),
        TestFacts::StuckPods(r) => check_no_stuck_pods(&r),
        TestFacts::PullErrors(r) => check_no_pull_errors(&r),
        TestFacts::CrashLoops(p) => check_pod_listing(&p),
        TestFacts::NodeConditions(r) => check_node_conditions(&r),
        TestFacts::Script(v) => v,
        TestFacts::DeepHostHttp { url, status } => check_host_http(url.as_str(), &status),
        TestFacts::DeepDockerInContainer(r) => check_docker_in_container(&r),
        TestFacts::DeepRuntimeSocket(r) => check_runtime_socket(&r),
        TestFacts::DeepCleanup(d) => check_cleanup(&d),
        TestFacts::Unknown(id) => failed_with("unknown test: ", id.as_str()),
    }
}

/// What a preflight test found.
#[derive(Debug)]
pub enum PreflightFacts {
    DockerAccessible(Result<bool, String>),
    KubectlInstalled(Result<bool, String>),
    ArchCheck { arch: Reply<Option<String>>, binary: String, macos: bool },
    DockerInfo(Reply<DaemonInfo>),
    DockerDisk(Reply<DiskInfo>),
    K3sImage(Result<bool, String>),
    ContainerConflict(Result<Option<bool>, String>),
    NetworkConflict(Result<bool, String>),
    /// The port test was decided without touching the port.
    PortDecided(Verdict),
    PortConnect { port: u16, connected: bool },
    PortBind { port: u16, bound: bool },
    Directory(DirectoryState),
    /// There is no preflight test with this id.
    Unknown(String),
}

/// The verdict on what a preflight test found.
pub open spec fn preflight_verdict(facts: PreflightFacts, config: ClusterConfig) -> VerdictView {
    match facts {
        PreflightFacts::DockerAccessible(r) => presence_verdict(r, "Docker daemon not reachable"@),
        PreflightFacts::KubectlInstalled(r) => presence_verdict(r, "kubectl not found in PATH"@),
        PreflightFacts::ArchCheck { arch, binary, macos } => arch_verdict(arch, binary@, macos),
        PreflightFacts::DockerInfo(r) => daemon_verdict(r),
        PreflightFacts::DockerDisk(r) => disk_verdict(r),
        PreflightFacts::K3sImage(r) => image_verdict(r),
        PreflightFacts::ContainerConflict(r) => container_conflict_verdict(r, config.container_name@),
        PreflightFacts::NetworkConflict(r) => network_conflict_verdict(r, config.network_name@),
        PreflightFacts::PortDecided(v) => verdict(v),
        PreflightFacts::PortConnect { port, connected } => connect_verdict(port, connected),
        PreflightFacts::PortBind { port, bound } => bind_verdict(port, bound),
        PreflightFacts::Directory(d) => directory_verdict(d),
        PreflightFacts::Unknown(id) => Err("unknown preflight test: "@ + id@),
    }
}

/// The verdict on what a preflight test found.
pub fn execute_preflight_test(facts: PreflightFacts, config: &ClusterConfig) -> (r: Verdict)
    ensures
        verdict(r) == preflight_verdict(facts, *config),
{
    match facts {
        PreflightFacts::DockerAccessible(r) => check_docker_accessible(&r),
        PreflightFacts::KubectlInstalled(r) => check_kubectl_installed(&r),
        PreflightFacts::ArchCheck { arch, binary, macos } => check_arch_mismatch(
            &arch,
            binary.as_str(),
            macos,
        ),
        PreflightFacts::DockerInfo(r) => check_docker_info(&r),
        PreflightFacts::DockerDisk(r) => check_docker_disk(&r),
        PreflightFacts::K3sImage(r) => check_k3s_image(&r),
        PreflightFacts::ContainerConflict(r) => check_container_conflict(
            &r,
            config.container_name.as_str(),
        ),
        PreflightFacts::NetworkConflict(r) => check_network_conflict(
            &r,
            config.network_name.as_str(),
        ),
        PreflightFacts::PortDecided(v) => v,
        PreflightFacts::PortConnect { port, connected } => check_port_connect(port, connected),
        PreflightFacts::PortBind { port, bound } => check_port_bind(port, bound),
        PreflightFacts::Directory(d) => check_directory(&d),
        PreflightFacts::Unknown(id) => failed_with("unknown preflight test: ", id.as_str()),
    }
}

// ---------------------------------------------------------------------------
// Laws
// ---------------------------------------------------------------------------

/// Every test of the full suite looks at something, and no two tests look at the same.
pub proof fn law_every_test_has_a_probe(i: int, a: Seq<char>, b: Seq<char>)
    ensures
        0 <= i < test_rows().len() ==> probe_for(test_rows()[i].id) != Probe::Unknown,
        probe_for(a) == probe_for(b) && probe_for(a) != Probe::Unknown ==> a == b,
{
    if 0 <= i < test_rows().len() {
        let r = test_rows();
        assert(r.len() == 30);
        assert(i == 0 || i == 1 || i == 2 || i == 3 || i == 4 || i == 5 || i == 6 || i == 7 || i == 8
            || i == 9 || i == 10 || i == 11 || i == 12 || i == 13 || i == 14 || i == 15 || i == 16
            || i == 17 || i == 18 || i == 19 || i == 20 || i == 21 || i == 22 || i == 23 || i == 24
            || i == 25 || i == 26 || i == 27 || i == 28 || i == 29);
    }
}

/// So does every test before a start, and no two of different ids look at the same.
pub proof fn law_every_preflight_test_has_a_probe(
    config: ClusterConfig,
    i: int,
    a: Seq<char>,
    b: Seq<char>,
)
    ensures
        0 <= i < preflight_rows(config).len() ==> preflight_probe_for(preflight_rows(config)[i].id)
            != PreflightProbe::Unknown,
        preflight_probe_for(a) == preflight_probe_for(b) && preflight_probe_for(a)
            != PreflightProbe::Unknown ==> a == b,
{
    if 0 <= i < preflight_rows(config).len() {
        let r = preflight_rows(config);
        let n = config.additional_ports@.len() as int;
        assert(r.len() == 13 + n);
        if 11 <= i < 11 + n {
            assert(r[i] == additional_port_rows(config.additional_ports@)[i - 11]);
        } else {
            assert(i == 0 || i == 1 || i == 2 || i == 3 || i == 4 || i == 5 || i == 6 || i == 7 || i
                == 8 || i == 9 || i == 10 || i == 11 + n || i == 12 + n);
        }
    }
}

/// What could not be asked does not pass: a test that needs Docker, the API server or the container
/// fails where it got no answer.
pub proof fn law_no_answer_fails(facts: TestFacts, config: ClusterConfig)
    ensures
        facts matches TestFacts::DockerAccessible(r) ==> (r is Err ==> test_verdict(facts, config)
            is Err),
        facts matches TestFacts::ContainerRunning(r) ==> (r is Err ==> test_verdict(facts, config)
            is Err),
        facts matches TestFacts::ApiReachable(r) ==> (r is Err ==> test_verdict(facts, config)
            is Err),
        facts matches TestFacts::NodesReady(r) ==> (r is Err ==> test_verdict(facts, config) is Err),
        facts matches TestFacts::ContainerHealth(r) ==> (!(r is Got) ==> test_verdict(facts, config)
            is Err),
        facts matches TestFacts::CoreDns(r) ==> (!(r is Got) ==> test_verdict(facts, config) is Err),
        facts matches TestFacts::Provisioner(r) ==> (!(r is Got) ==> test_verdict(facts, config)
            is Err),
        facts matches TestFacts::IngressConfigured(r) ==> (r is Err ==> test_verdict(facts, config)
            is Err),
        facts matches TestFacts::HostsUpToDate(r) ==> (r is Err ==> test_verdict(facts, config)
            is Err),
        facts matches TestFacts::StuckPods(r) ==> (!(r is Got) ==> test_verdict(facts, config)
            is Err),
        facts matches TestFacts::PullErrors(r) ==> (!(r is Got) ==> test_verdict(facts, config)
            is Err),
        facts matches TestFacts::CrashLoops(p) ==> (!(p is Got) ==> test_verdict(facts, config)
            is Err),
        facts matches TestFacts::NodeConditions(r) ==> (!(r is Got) ==> test_verdict(facts, config)
            is Err),
        facts is Unknown ==> test_verdict(facts, config) is Err,
{
}

/// Tests of two parts pass exactly where both parts do: the network needs its configuration and its
/// subnet, the endpoints need to be there and to answer without an error.
pub proof fn law_both_parts_must_pass(
    net: Reply<String>,
    subnet: Reply<String>,
    entries: Result<usize, String>,
    health: Vec<(String, IngressHealthStatus)>,
    config: ClusterConfig,
)
    ensures
        test_verdict(TestFacts::Flannel { config: net, subnet }, config) is Ok <==> (
        net matches Reply::Got(a) && trimmed(a@) == "ok"@) && (subnet matches Reply::Got(b)
            && has_sub(b@, "FLANNEL_NETWORK"@)),
        test_verdict(TestFacts::IngressHealthy { entries, health }, config) is Ok <==> (
        entries matches Ok(n) && n > 0) && (forall|i: int|
            0 <= i < health@.len() ==> (#[trigger] health@[i]).1 != IngressHealthStatus::Error),
{
    law_endpoints_in_error_fail(health@);
}

/// Only three probes look into the container, and each looks for its own file.
pub proof fn law_few_probes_look_into_the_container(p: Probe, i: int)
    ensures
        container_scripts(p).len() == match p {
            Probe::Flannel => 2nat,
            Probe::DeepDockerInContainer => 1,
            Probe::DeepRuntimeSocket => 1,
            _ => 0,
        },
        container_scripts(Probe::DeepDockerInContainer)[0] != container_scripts(
            Probe::DeepRuntimeSocket,
        )[0],
{
    reveal_strlit("test -S /var/run/docker.sock && echo 'ok' || echo 'missing'");
    reveal_strlit("test -S /proc/1/root/run/docker.sock && echo 'ok' || echo 'missing'");
    assert("test -S /var/run/docker.sock && echo 'ok' || echo 'missing'"@.len()
        != "test -S /proc/1/root/run/docker.sock && echo 'ok' || echo 'missing'"@.len());
}

/// A preflight test passes only on an answer that lets it: nothing that could not be asked passes, nor a
/// test that there is not.
pub proof fn law_preflight_needs_an_answer(facts: PreflightFacts, config: ClusterConfig)
    ensures
        facts matches PreflightFacts::Unknown(id) ==> preflight_verdict(facts, config) is Err,
        facts matches PreflightFacts::DockerAccessible(r) ==> (preflight_verdict(facts, config) is Ok
            <==> r is Ok && r->Ok_0),
        facts matches PreflightFacts::KubectlInstalled(r) ==> (preflight_verdict(facts, config) is Ok
            <==> r is Ok && r->Ok_0),
        facts matches PreflightFacts::DockerDisk(r) ==> preflight_verdict(facts, config)
            == disk_verdict(r),
        facts matches PreflightFacts::DockerInfo(r) ==> preflight_verdict(facts, config)
            == daemon_verdict(r),
        facts matches PreflightFacts::K3sImage(r) ==> preflight_verdict(facts, config)
            == image_verdict(r),
        facts matches PreflightFacts::ContainerConflict(r) ==> preflight_verdict(facts, config)
            == container_conflict_verdict(r, config.container_name@),
        facts matches PreflightFacts::NetworkConflict(r) ==> preflight_verdict(facts, config)
            == network_conflict_verdict(r, config.network_name@),
        facts matches PreflightFacts::PortConnect { port, connected } ==> preflight_verdict(
            facts,
            config,
        ) == connect_verdict(port, connected),
        facts matches PreflightFacts::PortBind { port, bound } ==> preflight_verdict(facts, config)
            == bind_verdict(port, bound),
        facts matches PreflightFacts::PortDecided(v) ==> preflight_verdict(facts, config) == verdict(v),
        facts matches PreflightFacts::Directory(d) ==> preflight_verdict(facts, config)
            == directory_verdict(d),
{
}

/// A probe belongs to the test whose id it is for.
pub proof fn law_probes_belong_to_their_tests(id: Seq<char>)
    ensures
        match probe_for(id) {
            Probe::DockerAccessible => id == "docker_accessible"@,
            Probe::KubectlInstalled => id == "kubectl_installed"@,
            Probe::AppArmor => id == "apparmor_check"@,
            Probe::BrNetfilter => id == "br_netfilter_loaded"@,
            Probe::ContainerRunning => id == "container_running"@,
            Probe::ApiReachable => id == "k8s_api_reachable"@,
            Probe::NodesReady => id == "nodes_ready"@,
            Probe::ContainerHealth => id == "container_health"@,
            Probe::ArchMismatch => id == "arch_mismatch"@,
            Probe::CoreDns => id == "coredns_running"@,
            Probe::TraefikService => id == "traefik_service"@,
            Probe::Provisioner => id == "local_path_provisioner"@,
            Probe::Flannel => id == "flannel_running"@,
            Probe::HostPorts => id == "host_ports_reachable"@,
            Probe::IngressConfigured => id == "ingress_configured"@,
            Probe::HostsUpToDate => id == "hosts_uptodate"@,
            Probe::IngressHealthy => id == "ingress_healthy"@,
            Probe::TlsCertificate => id == "tls_cert_valid"@,
            Probe::StuckPods => id == "no_stuck_pods"@,
            Probe::PullErrors => id == "no_pull_errors"@,
            Probe::CrashLoops => id == "no_crash_loops"@,
            Probe::NodeConditions => id == "node_conditions"@,
            Probe::DeepSetup => id == "deep_setup"@,
            Probe::DeepDns => id == "deep_dns"@,
            Probe::DeepConnectivity => id == "deep_connectivity"@,
            Probe::DeepVolume => id == "deep_volume"@,
            Probe::DeepHostHttp => id == "deep_host_http"@,
            Probe::DeepDockerInContainer => id == "deep_docker_in_container"@,
            Probe::DeepRuntimeSocket => id == "deep_runtime_socket"@,
            Probe::DeepCleanup => id == "deep_cleanup"@,
            Probe::Unknown => true,
        },
{
}

/// So does one before a start.
pub proof fn law_preflight_probes_belong_to_their_tests(id: Seq<char>)
    ensures
        match preflight_probe_for(id) {
            PreflightProbe::DockerAccessible => id == "pre_docker_accessible"@,
            PreflightProbe::KubectlInstalled => id == "pre_kubectl_installed"@,
            PreflightProbe::ArchCheck => id == "pre_arch_check"@,
            PreflightProbe::DockerInfo => id == "pre_docker_info"@,
            PreflightProbe::DockerDisk => id == "pre_docker_disk"@,
            PreflightProbe::K3sImage => id == "pre_k3s_image"@,
            PreflightProbe::ContainerConflict => id == "pre_container_conflict"@,
            PreflightProbe::NetworkConflict => id == "pre_network_conflict"@,
            PreflightProbe::Port => id == "pre_port"@,
            PreflightProbe::KubeconfigDir => id == "pre_kubeconfig_dir"@,
            PreflightProbe::CertsDir => id == "pre_certs_dir"@,
            PreflightProbe::Unknown => true,
        },
{
}

} // verus!
