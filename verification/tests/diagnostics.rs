use std::time::Duration;

use k3dev::cluster::diagnostics::{
    build_test_list, should_skip, DiagnosticStatus, DiagnosticsReport, CAT_CLUSTER,
    CAT_CORE_SERVICES, CAT_DEEP_VERIFICATION, CAT_NETWORKING, CAT_PODS, CAT_PREREQUISITES,
};

fn test_timeout(id: &str) -> Duration {
    Duration::from_secs(k3dev::cluster::diagnostics::test_timeout(id))
}

#[test]
fn test_build_test_list() {
    let tests = build_test_list();
    assert_eq!(tests.len(), 30);
    assert!(tests.iter().all(|t| t.status == DiagnosticStatus::Pending));
}

#[test]
fn test_categories_in_order() {
    let tests = build_test_list();
    let categories: Vec<&str> = tests.iter().map(|t| t.category).collect::<Vec<_>>();
    // Categories should appear in order
    let mut seen = Vec::new();
    for cat in &categories {
        if seen.last() != Some(cat) {
            seen.push(*cat);
        }
    }
    assert_eq!(
        seen,
        vec![
            CAT_PREREQUISITES,
            CAT_CLUSTER,
            CAT_CORE_SERVICES,
            CAT_NETWORKING,
            CAT_PODS,
            CAT_DEEP_VERIFICATION,
        ]
    );
}

#[test]
fn test_skip_on_prerequisite_failure() {
    let mut report = DiagnosticsReport::new();
    // Fail a prerequisite
    report.results[0].status = DiagnosticStatus::Failed("docker not available".to_string());

    // Cluster test should be skipped
    let cluster_idx = report
        .results
        .iter()
        .position(|r| r.category == CAT_CLUSTER)
        .unwrap();
    assert!(should_skip(&report, cluster_idx).is_some());

    // Prerequisite tests themselves should not be skipped
    assert!(should_skip(&report, 0).is_none());
    assert!(should_skip(&report, 1).is_none());
}

#[test]
fn test_no_skip_on_advisory_prerequisite_failure() {
    let mut report = DiagnosticsReport::new();
    // Pass critical prerequisites, fail br_netfilter (advisory)
    for r in report.results.iter_mut() {
        if r.category == CAT_PREREQUISITES {
            r.status = DiagnosticStatus::Passed;
        }
    }
    let br_idx = report
        .results
        .iter()
        .position(|r| r.id == "br_netfilter_loaded")
        .unwrap();
    report.results[br_idx].status =
        DiagnosticStatus::Failed("br_netfilter not loaded".to_string());

    // Cluster tests should NOT be skipped (only advisory prereq failed)
    let cluster_idx = report
        .results
        .iter()
        .position(|r| r.category == CAT_CLUSTER)
        .unwrap();
    assert!(should_skip(&report, cluster_idx).is_none());
}

#[test]
fn test_skip_on_cluster_failure() {
    let mut report = DiagnosticsReport::new();
    // Mark all prerequisites as passed
    for r in report.results.iter_mut() {
        if r.category == CAT_PREREQUISITES {
            r.status = DiagnosticStatus::Passed;
        }
    }
    // Fail a cluster test
    let cluster_idx = report
        .results
        .iter()
        .position(|r| r.category == CAT_CLUSTER)
        .unwrap();
    report.results[cluster_idx].status = DiagnosticStatus::Failed("not running".to_string());

    // Core services test should be skipped
    let core_idx = report
        .results
        .iter()
        .position(|r| r.category == CAT_CORE_SERVICES)
        .unwrap();
    assert!(should_skip(&report, core_idx).is_some());

    // Other cluster tests should NOT be skipped
    let next_cluster = report
        .results
        .iter()
        .enumerate()
        .find(|(i, r)| r.category == CAT_CLUSTER && *i > cluster_idx);
    if let Some((idx, _)) = next_cluster {
        assert!(should_skip(&report, idx).is_none());
    }
}

#[test]
fn test_no_skip_when_all_pass() {
    let mut report = DiagnosticsReport::new();
    // Mark all as passed
    for r in report.results.iter_mut() {
        r.status = DiagnosticStatus::Passed;
    }
    // Nothing should be skipped
    for i in 0..report.results.len() {
        assert!(should_skip(&report, i).is_none());
    }
}

#[test]
fn test_deep_skip_on_core_failure() {
    let mut report = DiagnosticsReport::new();
    // Pass prerequisites and cluster
    for r in report.results.iter_mut() {
        if r.category == CAT_PREREQUISITES || r.category == CAT_CLUSTER {
            r.status = DiagnosticStatus::Passed;
        }
    }
    // Fail a core services test
    let core_idx = report
        .results
        .iter()
        .position(|r| r.category == CAT_CORE_SERVICES)
        .unwrap();
    report.results[core_idx].status = DiagnosticStatus::Failed("not running".to_string());

    // Deep verification tests should be skipped
    let deep_idx = report
        .results
        .iter()
        .position(|r| r.category == CAT_DEEP_VERIFICATION)
        .unwrap();
    assert_eq!(
        should_skip(&report, deep_idx),
        Some("core services not healthy")
    );
}

#[test]
fn test_deep_cleanup_runs_after_setup_fail() {
    let mut report = DiagnosticsReport::new();
    // Pass everything before deep
    for r in report.results.iter_mut() {
        if r.category != CAT_DEEP_VERIFICATION {
            r.status = DiagnosticStatus::Passed;
        }
    }
    // Fail deep_setup
    let setup_idx = report
        .results
        .iter()
        .position(|r| r.id == "deep_setup")
        .unwrap();
    report.results[setup_idx].status =
        DiagnosticStatus::Failed("ns creation failed".to_string());

    // dns should be skipped
    let dns_idx = report
        .results
        .iter()
        .position(|r| r.id == "deep_dns")
        .unwrap();
    assert_eq!(should_skip(&report, dns_idx), Some("setup failed"));

    // cleanup should NOT be skipped (setup was attempted)
    let cleanup_idx = report
        .results
        .iter()
        .position(|r| r.id == "deep_cleanup")
        .unwrap();
    assert!(should_skip(&report, cleanup_idx).is_none());
}

#[test]
fn test_deep_no_setup_tests_run_independently() {
    let mut report = DiagnosticsReport::new();
    // Pass everything before deep, but fail deep_setup
    for r in report.results.iter_mut() {
        if r.category != CAT_DEEP_VERIFICATION {
            r.status = DiagnosticStatus::Passed;
        }
    }
    let setup_idx = report
        .results
        .iter()
        .position(|r| r.id == "deep_setup")
        .unwrap();
    report.results[setup_idx].status =
        DiagnosticStatus::Failed("ns creation failed".to_string());

    // deep_host_http, deep_docker_in_container, deep_runtime_socket should NOT be skipped
    for id in &[
        "deep_host_http",
        "deep_docker_in_container",
        "deep_runtime_socket",
    ] {
        let idx = report.results.iter().position(|r| r.id == *id).unwrap();
        assert!(
            should_skip(&report, idx).is_none(),
            "{} should not be skipped when setup fails",
            id
        );
    }

    // deep_dns/connectivity/volume SHOULD be skipped
    for id in &["deep_dns", "deep_connectivity", "deep_volume"] {
        let idx = report.results.iter().position(|r| r.id == *id).unwrap();
        assert_eq!(
            should_skip(&report, idx),
            Some("setup failed"),
            "{} should be skipped when setup fails",
            id
        );
    }
}

#[test]
fn test_deep_cleanup_skipped_if_no_setup() {
    let mut report = DiagnosticsReport::new();
    // Pass everything before deep
    for r in report.results.iter_mut() {
        if r.category != CAT_DEEP_VERIFICATION {
            r.status = DiagnosticStatus::Passed;
        }
    }
    // deep_setup is still Pending (not attempted)
    let cleanup_idx = report
        .results
        .iter()
        .position(|r| r.id == "deep_cleanup")
        .unwrap();
    assert_eq!(
        should_skip(&report, cleanup_idx),
        Some("setup not attempted")
    );
}

#[test]
fn test_timeout_values() {
    assert_eq!(test_timeout("docker_accessible"), Duration::from_secs(10));
    assert_eq!(
        test_timeout("host_ports_reachable"),
        Duration::from_secs(15)
    );
    assert_eq!(test_timeout("no_crash_loops"), Duration::from_secs(15));
    assert_eq!(test_timeout("deep_setup"), Duration::from_secs(60));
    assert_eq!(test_timeout("deep_dns"), Duration::from_secs(90));
    assert_eq!(test_timeout("deep_connectivity"), Duration::from_secs(120));
    assert_eq!(test_timeout("deep_volume"), Duration::from_secs(120));
    assert_eq!(test_timeout("deep_host_http"), Duration::from_secs(30));
    assert_eq!(
        test_timeout("deep_docker_in_container"),
        Duration::from_secs(30)
    );
    assert_eq!(test_timeout("deep_runtime_socket"), Duration::from_secs(30));
    assert_eq!(test_timeout("deep_cleanup"), Duration::from_secs(30));
}
