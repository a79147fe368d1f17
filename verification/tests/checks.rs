use k3dev::cluster::certificate::{check_certificate_end, check_tls_certificate, CertificateFiles};
use k3dev::cluster::checks::{
    check_apparmor, check_arch_mismatch, check_br_netfilter, check_container_health,
    check_coredns_running, check_flannel_subnet, check_host_ports, check_hosts_uptodate,
    check_ingress_health, check_no_crash_loops, check_no_pull_errors, check_node_conditions,
    check_nodes_ready, truncated_list, ContainerState, NodeCondition, NodeStatus, PodStates, Reply,
    WaitingPod,
};
use k3dev::cluster::config::{
    parse_port_mapping, parse_port_mappings, port_mapping_text, ClusterConfig, HooksConfig,
    InfrastructureConfig, SpeedupConfig,
};
use k3dev::cluster::deep::{
    check_cleanup, check_docker_in_container, check_host_http, check_runtime_socket, command_line,
    host_http_url, judge_command, namespace_wait_expired, pod_wait_expired, pod_wait_step,
    DeepAction, DeepCommand, DeepEvent, DeepNext, DeepRun, DeepScript, DeletionReply, WaitStep,
};
use k3dev::cluster::diagnostics::{
    build_preflight_list, port_of_test_name, should_skip_preflight, DiagnosticStatus, Suite,
    SuiteAction, TestOutcome,
};
use k3dev::cluster::ingress::IngressHealthStatus;
use k3dev::cluster::preflight::{
    check_container_conflict, check_directory, check_docker_disk, check_docker_info,
    check_network_conflict, check_port_bind, check_port_connect, plan_port_check, DaemonInfo,
    DirectoryState, DiskInfo, MappedPorts, PortPlan,
};
use k3dev::cluster::probes::{
    execute_preflight_test, execute_test, pod_selector, preflight_probe_of, probe_of, scripts_of,
    PodListing, PreflightFacts, PreflightProbe, Probe, TestFacts,
};

fn config() -> ClusterConfig {
    ClusterConfig::from(InfrastructureConfig {
        k3s_version: "v1.33.0-k3s1".to_string(),
        domain: "k3s.local".to_string(),
        container_name: "k3dev-k3s".to_string(),
        network_name: "k3dev".to_string(),
        api_port: 6443,
        http_port: 80,
        https_port: 443,
        additional_ports: vec!["2345:2345".to_string()],
        speedup: SpeedupConfig { use_snapshot: true, snapshot_auto_cleanup: true },
    })
}

fn ok(s: &str) -> Result<Option<String>, String> {
    Ok(Some(s.to_string()))
}

fn bad(s: &str) -> Result<Option<String>, String> {
    Err(s.to_string())
}

fn strings(v: &[&str]) -> Vec<String> {
    v.iter().map(|s| s.to_string()).collect()
}

#[test]
fn ports_are_read_and_written() {
    assert_eq!(parse_port_mapping("8080:80"), Some((8080, 80)));
    assert_eq!(parse_port_mapping("99999:80"), None);
    assert_eq!(parse_port_mapping("80"), None);
    let text = port_mapping_text(8080, 80);
    assert_eq!(parse_port_mapping(&text), Some((8080, 80)));
    assert_eq!(
        parse_port_mappings(&strings(&["1:2", "x", "3:4"])),
        vec![(1, 2), (3, 4)]
    );
    let c = config();
    assert_eq!(c.k3s_image(), "rancher/k3s:v1.33.0-k3s1");
    assert_eq!(c.traefik_dashboard_domain(), "traefik.k3s.local");
    assert!(!HooksConfig::none().has_hooks());
}

#[test]
fn long_lists_are_cut() {
    assert_eq!(truncated_list(&strings(&["a", "b"]), 3), "a, b");
    assert_eq!(truncated_list(&strings(&["a", "b", "c", "d", "e"]), 3), "a, b, c (+2)");
}

#[test]
fn host_conditions_never_fail() {
    assert_eq!(check_apparmor(false, true, ""), ok("not applicable (non-Linux)"));
    assert_eq!(check_apparmor(true, false, ""), ok("not active"));
    assert_eq!(check_apparmor(true, true, "a (enforce)\n"), ok("active"));
    assert_eq!(
        check_apparmor(true, true, "a\ndocker-default (enforce)\n"),
        ok("active, docker-default enforcing (k3s uses unconfined)")
    );
    assert_eq!(check_br_netfilter(true, "x 1\n", ""), ok("not loaded (ok for Docker mode)"));
    assert_eq!(
        check_br_netfilter(true, "br_netfilter 1 0\n", "1\n"),
        ok("loaded, bridge-nf-call-iptables=1")
    );
}

#[test]
fn nodes_have_to_be_ready() {
    let node = |n: &str, s: &str| NodeStatus { name: n.to_string(), status: s.to_string() };
    assert_eq!(check_nodes_ready(&Ok(vec![])), bad("no nodes found"));
    assert_eq!(check_nodes_ready(&Ok(vec![node("a", "Ready")])), ok("1 node(s)"));
    assert_eq!(
        check_nodes_ready(&Ok(vec![node("a", "NotReady"), node("b", "Ready"), node("c", "")])),
        bad("not ready: a, c")
    );
    assert_eq!(check_nodes_ready(&Err("e".to_string())), bad("failed to list nodes: e"));
}

#[test]
fn the_container_must_not_restart_often() {
    let got = |n: i64, t: &str| Reply::Got((Some(n), Some(t.to_string())));
    assert_eq!(
        check_container_health(&got(0, "2025-01-02T03:04:05.678Z")),
        ok("up since 2025-01-02 03:04:05")
    );
    assert_eq!(
        check_container_health(&got(2, "2025-01-02T03:04:05.678Z")),
        ok("2 restart(s), up since 2025-01-02 03:04:05")
    );
    assert!(check_container_health(&got(10, "x")).is_err());
    assert_eq!(check_container_health(&Reply::Failed("e".to_string())), bad("inspect failed: e"));
}

#[test]
fn architectures_are_compared() {
    let got = |s: &str| Reply::Got(Some(s.to_string()));
    assert_eq!(check_arch_mismatch(&got("x86_64"), "x86_64", false), ok("x86_64"));
    assert_eq!(
        check_arch_mismatch(&got("aarch64"), "x86_64", false),
        bad("binary=x86_64, Docker=aarch64")
    );
    assert_eq!(
        check_arch_mismatch(&got("aarch64"), "x86_64", true),
        bad("binary=x86_64, Docker=aarch64 (Rosetta detected)")
    );
}

#[test]
fn services_are_counted() {
    assert_eq!(
        check_coredns_running(&Reply::Got(strings(&["Running", "Pending", "Running"]))),
        ok("2 pod(s)")
    );
    assert_eq!(check_coredns_running(&Reply::Got(vec![])), bad("no running CoreDNS pods"));
    assert_eq!(
        check_flannel_subnet(&Reply::Got("FLANNEL_NETWORK=10.42.0.0/16\nX=1\n".to_string())),
        ok("embedded, 10.42.0.0/16")
    );
    assert_eq!(
        check_flannel_subnet(&Reply::Got(String::new())),
        bad("flannel subnet not configured")
    );
    assert_eq!(check_host_ports(&config(), true, true, true), ok("3 port(s) reachable"));
    assert_eq!(
        check_host_ports(&config(), false, true, false),
        bad("unreachable: HTTP(80), K8s API(6443)")
    );
}

#[test]
fn hosts_and_endpoints_are_checked() {
    assert_eq!(check_hosts_uptodate(&Ok(vec![])), Ok(None));
    assert_eq!(
        check_hosts_uptodate(&Ok(strings(&["a", "b", "c", "d"]))),
        bad("missing: a, b, c (+1)")
    );
    let health = vec![
        ("a|/".to_string(), IngressHealthStatus::Healthy),
        ("b|/".to_string(), IngressHealthStatus::Error),
    ];
    assert!(check_ingress_health(&health).is_err());
    assert_eq!(
        check_ingress_health(&vec![("a|/".to_string(), IngressHealthStatus::Healthy)]),
        ok("1 endpoint(s)")
    );
}

#[test]
fn troubled_pods_are_named() {
    let waiting = |n: &str, r: &str| WaitingPod { name: n.to_string(), reasons: strings(&[r]) };
    assert_eq!(
        check_no_pull_errors(&Reply::Got(vec![waiting("a", "ContainerCreating")])),
        Ok(None)
    );
    assert!(check_no_pull_errors(&Reply::Got(vec![waiting("a", "ErrImagePull")])).is_err());
    let state = |w: Option<&str>, t: Option<&str>, n: i32| ContainerState {
        waiting_reason: w.map(|s| s.to_string()),
        terminated_reason: t.map(|s| s.to_string()),
        restart_count: n,
    };
    let pod = |c: Vec<ContainerState>| PodStates {
        namespace: "default".to_string(),
        name: "web".to_string(),
        containers: c,
    };
    assert_eq!(check_no_crash_loops(&vec![pod(vec![state(None, None, 0)])]), Ok(None));
    assert_eq!(
        check_no_crash_loops(&vec![pod(vec![state(Some("CrashLoopBackOff"), None, 0)])]),
        bad("default/web: CrashLoopBackOff")
    );
    let condition = |k: &str, s: &str| NodeCondition {
        node: Some("n".to_string()),
        kind: k.to_string(),
        status: s.to_string(),
    };
    assert_eq!(
        check_node_conditions(&Reply::Got(vec![condition("DiskPressure", "False")])),
        ok("no pressure conditions")
    );
    assert_eq!(
        check_node_conditions(&Reply::Got(vec![condition("DiskPressure", "True")])),
        bad("pressure: n: DiskPressure")
    );
}

const CERTIFICATE: &str = "-----BEGIN CERTIFICATE-----
MIIBGjCBxaADAgECAgEBMA0GCSqGSIb3DQEBCwUAMBYxFDASBgNVBAMMC2szZGV2
LmxvY2FsMB4XDTI1MDEwMTAwMDAwMFoXDTMwMDEwMTAwMDAwMFowFjEUMBIGA1UE
AwwLazNkZXYubG9jYWwwXDANBgkqhkiG9w0BAQEFAANLADBIAkEAAQIDBAUGBwgJ
CgsMDQ4PEBESExQVFhcYGRobHB0eHyAhIiMkJSYnKCkqKywtLi8wMTIzNDU2Nzg5
Ojs8PT4/QAIDAQABMA0GCSqGSIb3DQEBCwUAA0EAAAAAAAAAAAAAAAAAAAAAAAAA
AAAAAAAAAAAAAAAAAAAAAAAAAAAAAAAAAAAAAAAAAAAAAAAAAAAAAAAAAAAAAA==
-----END CERTIFICATE-----
";

/// The first second of 2030, when the certificate ends.
const END: i64 = 1893456000;

fn files(data: Result<Vec<u8>, String>) -> CertificateFiles {
    CertificateFiles {
        cert_path: "/c".to_string(),
        key_path: "/k".to_string(),
        cert_exists: true,
        key_exists: true,
        data,
    }
}

#[test]
fn certificates_end() {
    assert_eq!(check_certificate_end(1000, 1000 - 86401), ok("valid, not expiring within 24h"));
    assert_eq!(check_certificate_end(1000, 999), bad("certificate expiring within 24h"));
    assert_eq!(check_certificate_end(1000, 1001), bad("certificate expired"));
}

#[test]
fn certificates_are_parsed() {
    let pem = || Ok(CERTIFICATE.as_bytes().to_vec());
    assert_eq!(
        check_tls_certificate(&files(pem()), END - 10 * 86400),
        ok("valid, not expiring within 24h")
    );
    assert_eq!(
        check_tls_certificate(&files(pem()), END - 3600),
        bad("certificate expiring within 24h")
    );
    assert_eq!(check_tls_certificate(&files(pem()), END + 1), bad("certificate expired"));
    let text = check_tls_certificate(&files(Ok(b"junk".to_vec())), 0).unwrap_err();
    assert!(text.starts_with("failed to parse PEM: "));
    let other = "-----BEGIN CERTIFICATE-----\nAAAA\n-----END CERTIFICATE-----\n";
    let text = check_tls_certificate(&files(Ok(other.as_bytes().to_vec())), 0).unwrap_err();
    assert!(text.starts_with("failed to parse certificate: "), "{}", text);
    assert_eq!(
        check_tls_certificate(&files(Err("e".to_string())), 0),
        bad("failed to read cert: e")
    );
    assert_eq!(
        check_tls_certificate(&CertificateFiles { cert_exists: false, ..files(pem()) }, 0),
        bad("cert not found: /c")
    );
    assert_eq!(
        check_tls_certificate(&CertificateFiles { key_exists: false, ..files(pem()) }, 0),
        bad("key not found: /k")
    );
}

#[test]
fn the_machine_is_checked_before_a_start() {
    let info = |d: Option<&str>| {
        Reply::Got(DaemonInfo {
            server_version: Some("27".to_string()),
            cgroup_driver: d.map(|s| s.to_string()),
        })
    };
    assert_eq!(check_docker_info(&info(Some("cgroupfs"))), ok("v27, cgroup=cgroupfs"));
    assert_eq!(check_docker_info(&info(None)), ok("v27, cgroup=unknown"));
    let disk = |b: Option<(u64, u64)>| {
        Reply::Got(DiskInfo {
            images: Some(3),
            containers: Some(4),
            root_dir: Some("/d".to_string()),
            free_blocks: b,
        })
    };
    assert_eq!(check_docker_disk(&disk(None)), ok("3 images, 4 containers"));
    assert_eq!(check_docker_disk(&disk(Some((4096, 20 * 262144)))), ok("20G free, 3 images"));
    assert!(check_docker_disk(&disk(Some((4096, 262144)))).is_err());
    assert_eq!(
        check_container_conflict(&Ok(Some(true)), "k"),
        bad("'k' already running — stop or destroy first")
    );
    assert_eq!(check_network_conflict(&Ok(true), "n"), ok("'n' exists (will be reused)"));
    assert_eq!(check_port_connect(80, true), bad("port 80 in use by another service"));
    assert_eq!(check_port_bind(8080, false), bad("port 8080 already in use by another service"));
    assert_eq!(
        check_directory(&DirectoryState::Created("/x".to_string(), Ok(()))),
        ok("created /x")
    );
    assert_eq!(
        check_directory(&DirectoryState::Created("/x".to_string(), Err("e".to_string()))),
        bad("/x: e")
    );
}

#[test]
fn ports_are_planned() {
    let list = build_preflight_list(&config());
    let http = list.iter().find(|t| port_of_test_name(&t.name) == Some(80)).unwrap();
    assert!(matches!(plan_port_check(&http.name, &None), PortPlan::Connect(80)));
    let own = |running| Some(MappedPorts { host_ports: strings(&["80"]), running });
    match plan_port_check(&http.name, &own(Some(true))) {
        PortPlan::Decided(v) => assert_eq!(v, ok("in use by k3dev (running)")),
        p => panic!("{:?}", p),
    }
    match plan_port_check(&http.name, &own(Some(false))) {
        PortPlan::Decided(v) => assert_eq!(v, ok("mapped by k3dev (stopped)")),
        p => panic!("{:?}", p),
    }
    match plan_port_check("no port", &None) {
        PortPlan::Decided(v) => assert_eq!(v, bad("invalid port test")),
        p => panic!("{:?}", p),
    }
}

fn run_suite(mut s: Suite, fail: &str) -> Suite {
    let mut turns = 0;
    loop {
        turns += 1;
        assert!(turns < 200);
        match s.advance() {
            SuiteAction::Skipped => {}
            SuiteAction::Run { id, .. } => {
                let outcome = if id == fail {
                    TestOutcome::Failed("x".to_string())
                } else {
                    TestOutcome::Passed(None)
                };
                s.complete(outcome, 5);
            }
            SuiteAction::Finished => return s,
        }
    }
}

#[test]
fn suites_run_to_their_end() {
    let s = run_suite(Suite::diagnostics(), "");
    assert!(s.report.finished);
    assert!(s.report.results.iter().all(|r| r.status == DiagnosticStatus::Passed));
    let s = run_suite(Suite::diagnostics(), "docker_accessible");
    let skipped = |s: &Suite| {
        s.report
            .results
            .iter()
            .filter(|r| matches!(r.status, DiagnosticStatus::Skipped(_)))
            .count()
    };
    // The other prerequisites run.
    assert_eq!(skipped(&s), 26);
    let s = run_suite(Suite::preflight(&config()), "pre_docker_accessible");
    assert!(skipped(&s) > 0);
    assert!(should_skip_preflight(&s.report, 0).is_none());
}

#[test]
fn timed_out_tests_fail() {
    let mut s = Suite::diagnostics();
    assert!(matches!(s.advance(), SuiteAction::Run { .. }));
    s.complete(TestOutcome::TimedOut, 7);
    assert!(matches!(s.report.results[0].status, DiagnosticStatus::Failed(_)));
    assert_eq!(s.report.results[0].duration, Some(7));
}

#[test]
fn every_test_has_a_probe() {
    for t in k3dev::cluster::diagnostics::build_test_list() {
        assert!(!matches!(probe_of(t.id), Probe::Unknown), "{}", t.id);
    }
    for t in build_preflight_list(&config()) {
        assert!(!matches!(preflight_probe_of(t.id), PreflightProbe::Unknown), "{}", t.id);
    }
    assert!(matches!(probe_of("nonsense"), Probe::Unknown));
    assert!(!scripts_of(Probe::Flannel).is_empty());
    assert!(pod_selector(Probe::CoreDns).is_some());
}

#[test]
fn facts_become_verdicts() {
    let c = config();
    assert_eq!(execute_test(TestFacts::DockerAccessible(Ok(true)), &c), Ok(None));
    assert_eq!(
        execute_test(TestFacts::ContainerRunning(Ok(false)), &c),
        bad("container 'k3dev-k3s' not running")
    );
    assert_eq!(
        execute_test(TestFacts::HostPorts { http: true, https: false, api: true }, &c),
        bad("unreachable: HTTPS(443)")
    );
    assert!(execute_test(TestFacts::CrashLoops(PodListing::Unavailable("e".to_string())), &c).is_err());
    assert!(execute_test(TestFacts::Unknown("z".to_string()), &c).is_err());
    assert_eq!(
        execute_preflight_test(PreflightFacts::PortBind { port: 9, bound: true }, &c).is_ok(),
        true
    );
    assert!(execute_preflight_test(PreflightFacts::Unknown("z".to_string()), &c).is_err());
}

fn run_script(script: DeepScript, fail_at: usize) -> (Vec<DeepAction>, Result<Option<String>, String>) {
    let (mut run, mut action) = DeepRun::start(script);
    let mut done = Vec::new();
    loop {
        let ev = if done.len() == fail_at {
            DeepEvent::Failed("x".to_string())
        } else if let DeepAction::Exec(_, c) = &action {
            let out = if matches!(c, DeepCommand::Read) { "k3dev-diag-ok\n" } else { "" };
            DeepEvent::Ran { exit_code: 0, stdout: out.to_string(), stderr: String::new() }
        } else {
            DeepEvent::Done
        };
        done.push(action);
        assert!(done.len() < 50);
        let (r, next) = run.next(ev);
        run = r;
        match next {
            DeepNext::Do(a) => action = a,
            DeepNext::Finish(v) => return (done, v),
        }
    }
}

#[test]
fn scripts_clean_up_after_themselves() {
    for script in [DeepScript::Dns, DeepScript::Connectivity, DeepScript::Volume] {
        let (all, verdict) = run_script(script, usize::MAX);
        assert!(verdict.is_ok());
        assert!(matches!(all[0], DeepAction::Connect));
        let made = all.iter().filter(|a| matches!(a, DeepAction::CreatePod(_))).count();
        let gone = all.iter().filter(|a| matches!(a, DeepAction::DeletePod(_))).count();
        assert!(made > 0 && gone >= made);
        let wait = all.iter().position(|a| matches!(a, DeepAction::AwaitPod(..))).unwrap();
        assert!(run_script(script, wait).1.is_err());
    }
    assert_eq!(run_script(DeepScript::Setup, usize::MAX).1, ok("k3dev-diag"));
    assert_eq!(run_script(DeepScript::Setup, 0).1, bad("client init failed: x"));
}

#[test]
fn a_decided_script_still_cleans_up() {
    let (mut run, mut action) = DeepRun::start(DeepScript::Dns);
    let mut deleted = false;
    loop {
        let ev = if matches!(action, DeepAction::Exec(..)) {
            DeepEvent::Ran { exit_code: 1, stdout: String::new(), stderr: "no".to_string() }
        } else {
            DeepEvent::Done
        };
        deleted = deleted || matches!(action, DeepAction::DeletePod(_));
        let (r, next) = run.next(ev);
        run = r;
        match next {
            DeepNext::Do(a) => action = a,
            DeepNext::Finish(v) => {
                assert_eq!(v, bad("nslookup failed (exit 1): no"));
                break;
            }
        }
    }
    assert!(deleted);
}

#[test]
fn commands_in_pods_are_judged() {
    assert_eq!(command_line(&DeepCommand::LookUp)[0], "nslookup");
    assert_eq!(
        judge_command(&DeepCommand::LookUp, 0, "", ""),
        Some(ok("kubernetes.default resolved"))
    );
    assert_eq!(
        judge_command(&DeepCommand::Fetch, 1, "", " no route \n"),
        Some(bad("wget failed (exit 1): no route"))
    );
    assert_eq!(
        judge_command(&DeepCommand::Read, 0, "other\n", ""),
        Some(bad("read-back mismatch: got 'other'"))
    );
    assert_eq!(judge_command(&DeepCommand::Write, 0, "", ""), None);
}

#[test]
fn waits_for_pods_expire() {
    assert_eq!(pod_wait_expired("p", 0, 10), None);
    assert_eq!(
        pod_wait_expired("p", 11_000_000_000, 10),
        Some("pod 'p' not ready within 10s".to_string())
    );
    assert!(matches!(pod_wait_step(&Some(("Running".to_string(), true))), WaitStep::Ready));
    assert!(matches!(pod_wait_step(&Some(("Running".to_string(), false))), WaitStep::Again(_)));
    assert_eq!(namespace_wait_expired(0), None);
    assert!(namespace_wait_expired(u128::MAX).is_some());
}

#[test]
fn the_last_deep_checks_are_judged() {
    assert_eq!(check_cleanup(&DeletionReply::Deleted), ok("deleted k3dev-diag"));
    assert_eq!(check_cleanup(&DeletionReply::NotFound), ok("already clean"));
    assert!(check_cleanup(&DeletionReply::Failed("e".to_string())).is_err());
    assert_eq!(host_http_url(&config(), &None), "http://127.0.0.1:80");
    assert_eq!(check_host_http("u", &Reply::Got(404)), ok("HTTP 404"));
    assert_eq!(
        check_docker_in_container(&Reply::Got(" ok\n".to_string())),
        ok("socket mounted")
    );
    assert_eq!(
        check_runtime_socket(&None),
        ok("not applicable (Linux uses direct socket)")
    );
}
