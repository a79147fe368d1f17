use k3dev::bench::{
    budget_key, budget_ms, build_cluster_config, classify, BenchEvent, BenchPhase, BenchRun,
    Budgets, PhaseStatus, PodTimes,
};
use k3dev::cluster::config::{HooksConfig, InfrastructureConfig, SpeedupConfig};
use k3dev::cluster::k3s::status::ClusterStatus;

fn budgets() -> Budgets {
    Budgets {
        config_load: 100,
        app_init: 100,
        status_check: 100,
        client_init: 100,
        list_pods: 100,
        pod_stats: 100,
        time_to_pods: 100,
    }
}

const MS: u128 = 1_000_000;

#[test]
fn budgets_come_from_variables() {
    assert_eq!(budget_ms(&Some("250".to_string()), 7), 250);
    assert_eq!(budget_ms(&Some("x".to_string()), 7), 7);
    assert_eq!(budget_ms(&None, 7), 7);
    assert_eq!(budget_key("config_load"), "K3DEV_BENCH_CONFIG_LOAD_MS");
}

#[test]
fn larger_budgets_are_kinder() {
    assert!(matches!(classify(100 * MS, 100, true), PhaseStatus::Pass));
    assert!(matches!(classify(101 * MS, 100, true), PhaseStatus::Fail));
    assert!(matches!(classify(101 * MS, 101, true), PhaseStatus::Pass));
    assert!(matches!(classify(MS, 100, false), PhaseStatus::Fail));
}

#[test]
fn a_stopped_cluster_skips_its_phases() {
    let mut run = BenchRun::new(budgets());
    assert!(matches!(
        run.run_bench(&BenchEvent::ConfigLoaded { warnings: 0 }, MS),
        Some(BenchPhase::AppInit)
    ));
    assert!(matches!(
        run.run_bench(&BenchEvent::AppInit(true), MS),
        Some(BenchPhase::StatusCheck)
    ));
    let mut next = run.run_bench(&BenchEvent::Status(ClusterStatus::Stopped), MS);
    let mut turns = 0;
    while let Some(phase) = next {
        turns += 1;
        assert!(turns < 10);
        next = match phase {
            BenchPhase::TimeToPods => {
                run.run_bench(&BenchEvent::TimeToPods(Err("no pods".to_string())), MS)
            }
            _ => run.run_bench(&BenchEvent::ClientInit(false), MS),
        };
    }
    let report = run.report();
    assert_eq!(report.phases.len(), 7);
    assert!(!report.cluster_running);
    assert!(report.passed);
    assert!(report.phases.iter().filter(|p| matches!(p.status, PhaseStatus::Skip)).count() >= 3);
    assert!(report.print().contains("\x1b["));
}

#[test]
fn a_running_cluster_takes_all_phases() {
    let mut run = BenchRun::new(budgets());
    run.run_bench(&BenchEvent::ConfigLoaded { warnings: 2 }, MS);
    run.run_bench(&BenchEvent::AppInit(true), MS);
    assert!(matches!(
        run.run_bench(&BenchEvent::Status(ClusterStatus::Running), MS),
        Some(BenchPhase::ClientInit)
    ));
    assert!(matches!(
        run.run_bench(&BenchEvent::ClientInit(true), MS),
        Some(BenchPhase::ListPods)
    ));
    run.run_bench(&BenchEvent::Pods(Ok(3)), MS);
    run.run_bench(&BenchEvent::Stats(Ok(3)), 500 * MS);
    let last = run.run_bench(
        &BenchEvent::TimeToPods(Ok(PodTimes {
            status_nanos: MS,
            pods_nanos: 2 * MS,
            running: 3,
            pending: 0,
        })),
        3 * MS,
    );
    assert!(last.is_none());
    let report = run.report();
    assert_eq!(report.phases.len(), 7);
    assert!(report.cluster_running);
    // The statistics took longer than their budget.
    assert!(!report.passed);
}

#[test]
fn empty_access_settings_are_none() {
    let infra = InfrastructureConfig {
        k3s_version: "v1.33.0-k3s1".to_string(),
        domain: "local".to_string(),
        container_name: "k3s".to_string(),
        network_name: "net".to_string(),
        api_port: 6443,
        http_port: 80,
        https_port: 443,
        additional_ports: vec!["8080:80".to_string(), "9000".to_string(), "x".to_string()],
        speedup: SpeedupConfig { use_snapshot: true, snapshot_auto_cleanup: false },
    };
    let c = build_cluster_config(infra, HooksConfig::none(), String::new(), "ctx".to_string());
    assert_eq!(c.kubeconfig, None);
    assert_eq!(c.context, Some("ctx".to_string()));
    assert_eq!(c.additional_ports[0], (8080, 80));
}

#[test]
fn a_wait_for_pods_that_cannot_begin_fails() {
    let mut run = BenchRun::new(budgets());
    run.run_bench(&BenchEvent::Status(ClusterStatus::Running), MS);
    run.run_bench(&BenchEvent::TimeToPods(Err("no config".to_string())), MS);
    let report = run.report();
    let p = report.phases.last().unwrap();
    assert_eq!((p.name, p.nanos), ("time_to_pods_e2e", 0));
    assert!(p.status == PhaseStatus::Fail);
    assert_eq!(p.detail, "App::new() failed: no config");
    assert!(!report.passed);
}

#[test]
fn times_are_printed_as_the_machine_prints_them() {
    let mut all = vec![0, 1, 499_999, 500_000, 501_500_000, 1_499_500_000, 2_500_000];
    for k in 0..300u64 {
        all.push(k * 500_000);
        all.push(k * 7_500_000 + 500_000);
        all.push(k * 1_000_500_000);
    }
    for ns in all {
        let mut run = BenchRun::new(budgets());
        run.run_bench(&BenchEvent::AppInit(true), ns as u128);
        let ms = std::time::Duration::from_nanos(ns).as_secs_f64() * 1000.0;
        let text = run.report().print();
        assert!(text.contains(&format!(" {:>9}  ", format!("{:.0}ms", ms))), "{} {}", ns, text);
    }
    let mut run = BenchRun::new(budgets());
    run.run_bench(&BenchEvent::AppInit(true), 501_500_000);
    assert!(run.report().print().contains(" 501ms "));
}
