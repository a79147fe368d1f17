use k3dev::capture::spec::CaptureTarget;
use k3dev::capture::stream::CaptureMessage;
use k3dev::cli::{
    announce_capture, announce_delete, capture_from_args, exit_code, follow_capture, opener,
    plan_capture, print_output_line, print_pods_head, print_pods_total, run_cli_action,
    run_cli_capture, run_cli_delete_pod, run_cli_exec, run_cli_logs, run_cli_pods,
    run_cli_update_hosts, step_failed, suite_title, summarize, warn_not_opened, warn_not_running,
    ActionOutcome, CaptureArgs, CaptureEnd, CliStep, ListedPod, SuitePrinter,
};
use k3dev::cluster::diagnostics::{DiagnosticStatus, DiagnosticsReport, SuiteKind};
use k3dev::cluster::ingress::HostsUpdateResult;
use k3dev::output::{OutputLine, OutputType};

#[test]
fn lines_are_coloured() {
    assert_eq!(
        print_output_line(&OutputLine::success("ok"), "[01:02:03]"),
        "\x1b[90m[01:02:03]\x1b[0m \x1b[32mok\x1b[0m"
    );
    assert_eq!(
        print_output_line(&OutputLine::info("ok"), "[01:02:03]"),
        "\x1b[90m[01:02:03]\x1b[0m \x1b[0mok\x1b[0m"
    );
    assert!(print_output_line(&OutputLine::warning("w"), "").contains("\x1b[33mw"));
    assert!(print_output_line(&OutputLine::error("e"), "").contains("\x1b[31me"));
}

#[test]
fn operations_end_with_a_line_and_a_code() {
    let (l, c) = run_cli_action(&ActionOutcome::Done);
    assert_eq!((l.text.as_str(), c), ("Done.", 0));
    assert!(matches!(l.kind, OutputType::Success));
    let (l, c) = run_cli_action(&ActionOutcome::Failed("x".to_string()));
    assert_eq!((l.text.as_str(), c), ("Error: x", 1));
    let (l, c) = run_cli_action(&ActionOutcome::Panicked("x".to_string()));
    assert_eq!((l.text.as_str(), c), ("Task panicked: x", 1));
    let (l, c) = run_cli_action(&ActionOutcome::TimedOut);
    assert_eq!((l.text.as_str(), c), ("Operation timed out", 1));
}

#[test]
fn results_are_printed_once() {
    let mut report = DiagnosticsReport::new();
    let mut p = SuitePrinter::new();
    assert_eq!(p.run_cli_diagnostics(&report), "");
    report.results[0].status = DiagnosticStatus::Running;
    assert_eq!(
        p.run_cli_diagnostics(&report),
        "\x1b[1;36m── Prerequisites ──\x1b[0m\n  \x1b[33m⟳\x1b[0m Docker accessible..."
    );
    report.results[0].status = DiagnosticStatus::Passed;
    report.results[0].duration = Some(1_250_000_000);
    assert_eq!(
        p.run_cli_diagnostics(&report),
        "\r  \x1b[32m✓\x1b[0m Docker accessible \x1b[90m(1.2s)\x1b[0m\n"
    );
    assert_eq!(p.run_cli_diagnostics(&report), "");
    report.results[1].status = DiagnosticStatus::Failed("missing".to_string());
    report.results[1].duration = Some(1_250_000_001);
    report.results[2].status = DiagnosticStatus::Skipped("why".to_string());
    assert_eq!(
        p.run_cli_diagnostics(&report),
        "  \x1b[31m✗\x1b[0m kubectl installed \x1b[90m(1.3s)\x1b[0m\n    \x1b[31mmissing\x1b[0m\n  \
         \x1b[90m⊘ AppArmor profile (skipped: why)\x1b[0m\n"
    );
    assert_eq!(p.printed, 3);
}

#[test]
fn a_suite_ends_well_if_nothing_failed() {
    assert_eq!(suite_title(SuiteKind::Preflight), "\x1b[1mRunning preflight checks...\x1b[0m\n\n");
    let mut report = DiagnosticsReport::new();
    for r in report.results.iter_mut() {
        r.status = DiagnosticStatus::Passed;
    }
    report.results[3].status = DiagnosticStatus::Skipped("x".to_string());
    let p = summarize(SuiteKind::Diagnostics, &Some(report.clone()));
    assert_eq!(p.code, 0);
    assert_eq!(p.stdout, "\n\x1b[32m✓ All tests passed (29/30, 1 skipped)\x1b[0m\n");
    let p = summarize(SuiteKind::Preflight, &Some(report.clone()));
    assert_eq!(p.stdout, "\n\x1b[32m✓ Ready to start (29/30 passed, 1 skipped)\x1b[0m\n");
    report.results[4].status = DiagnosticStatus::Failed("x".to_string());
    let p = summarize(SuiteKind::Diagnostics, &Some(report));
    assert_eq!(p.code, 1);
    assert_eq!(p.stdout, "\n\x1b[31m✗ 28/30 passed, 1 failed, 1 skipped\x1b[0m\n");
    let p = summarize(SuiteKind::Preflight, &None);
    assert_eq!((p.stderr.as_str(), p.code), ("Preflight checks did not complete\n", 1));
}

#[test]
fn updates_of_the_hosts_file_are_reported() {
    let p = run_cli_update_hosts(&HostsUpdateResult::NoUpdateNeeded);
    assert_eq!((p.stdout.as_str(), p.code), ("\x1b[32m✓ /etc/hosts is already up to date\x1b[0m\n", 0));
    let p = run_cli_update_hosts(&HostsUpdateResult::WrittenDirectly { count: 2 });
    assert_eq!((p.stdout.as_str(), p.code), ("\x1b[32m✓ Updated /etc/hosts with 2 entries\x1b[0m\n", 0));
    let p = run_cli_update_hosts(&HostsUpdateResult::NeedsSudo {
        content: "127.0.0.1 localhost\n127.0.0.1 a.b # k3dev-ingress\n".to_string(),
        count: 1,
    });
    assert_eq!(p.code, 1);
    assert!(p.stdout.ends_with("following:\n\n  127.0.0.1 a.b # k3dev-ingress\n"));
    let p = run_cli_update_hosts(&HostsUpdateResult::ReadOnly { entries: vec!["e1".to_string()] });
    assert_eq!(p.code, 1);
    assert!(p.stdout.ends_with("manually:\x1b[0m\n\n  e1\n"));
}

#[test]
fn pods_are_listed() {
    assert_eq!(
        print_pods_head(),
        format!(
            "\x1b[1m{:<40} {:<16} {:<10} {:<8} {:<16}\x1b[0m\n{}\n",
            "NAME",
            "NAMESPACE",
            "STATUS",
            "READY",
            "IP",
            "-".repeat(90)
        )
    );
    let pod = |status: &str, ready: bool, ip: Option<&str>| ListedPod {
        name: "web".to_string(),
        namespace: "default".to_string(),
        status: status.to_string(),
        ready,
        ip: ip.map(|s| s.to_string()),
    };
    let p = run_cli_pods("default", &Ok(vec![pod("Running", true, Some("10.0.0.1")), pod("Odd", false, None)]));
    assert_eq!(
        p.stdout,
        format!(
            "{:<40} {:<16} {}{:<10}\x1b[0m {}{:<8}\x1b[0m {:<16}\n{:<40} {:<16} {}{:<10}\x1b[0m {}{:<8}\x1b[0m {:<16}\n",
            "web", "default", "\x1b[32m", "Running", "\x1b[32m", "Yes", "10.0.0.1",
            "web", "default", "\x1b[31m", "Odd", "\x1b[33m", "No", "-"
        )
    );
    let p = run_cli_pods("x", &Err("denied".to_string()));
    assert_eq!(p.stderr, "\x1b[33mWarning: could not list pods in x: denied\x1b[0m\n");
    assert_eq!(print_pods_total(2), "\n\x1b[90m2 pods total\x1b[0m\n");
}

#[test]
fn failed_steps_end_commands() {
    let p = step_failed(CliStep::Connect, "refused");
    assert_eq!(p.stderr, "\x1b[31mFailed to connect to cluster: refused\x1b[0m\n");
    assert_eq!(p.code, 1);
    let p = step_failed(CliStep::ListNamespaces, "r");
    assert_eq!(p.stderr, "\x1b[31mFailed to list namespaces: r\x1b[0m\n");
}

#[test]
fn pods_are_removed_and_restarted() {
    assert_eq!(
        announce_delete("p", "n", false),
        "Deleting pod \x1b[1mp\x1b[0m in namespace \x1b[1mn\x1b[0m...\n"
    );
    assert!(announce_delete("p", "n", true).ends_with("(delete and let deployment recreate)...\n"));
    let p = run_cli_delete_pod("p", &Ok(()), false);
    assert_eq!((p.stdout.as_str(), p.code), ("\x1b[32m✓ Pod p deleted\x1b[0m\n", 0));
    let p = run_cli_delete_pod("p", &Ok(()), true);
    assert_eq!(p.stdout, "\x1b[32m✓ Pod p deleted — deployment will recreate it\x1b[0m\n");
    let p = run_cli_delete_pod("p", &Err("e".to_string()), true);
    assert_eq!((p.stderr.as_str(), p.code), ("\x1b[31m✗ Failed to restart pod: e\x1b[0m\n", 1));
    let p = run_cli_delete_pod("p", &Err("e".to_string()), false);
    assert_eq!(p.stderr, "\x1b[31m✗ Failed to delete pod: e\x1b[0m\n");
}

#[test]
fn programs_get_their_arguments() {
    assert_eq!(
        run_cli_logs("p", "n", &Some("c".to_string()), -1),
        vec!["logs", "-f", "p", "-n", "n", "-c", "c", "--tail=-1"]
    );
    assert_eq!(
        run_cli_exec("p", "n", &None, "/bin/sh"),
        vec!["exec", "-it", "p", "-n", "n", "--", "/bin/sh"]
    );
    assert_eq!(exit_code(Some(3)), 3);
    assert_eq!(exit_code(None), 1);
    assert_eq!(warn_not_running("p", "Running"), None);
    assert_eq!(
        warn_not_running("p", "Pending"),
        Some("\x1b[33m⚠ Pod p is in Pending state\x1b[0m\n".to_string())
    );
    assert_eq!(opener(true), "open");
    assert_eq!(opener(false), "xdg-open");
    assert_eq!(warn_not_opened("open", "e"), "\x1b[33mWarning: failed to launch open: e\x1b[0m\n");
}

fn args() -> CaptureArgs {
    CaptureArgs {
        pod: Some("web".to_string()),
        namespace: "default".to_string(),
        container: Some("other".to_string()),
        iface: "any".to_string(),
        filter: None,
        duration: Some("30s".to_string()),
        max_bytes: Some("1K".to_string()),
        out: None,
        out_dir: None,
        image: None,
        default_dir: "/captures".to_string(),
        default_image: "img".to_string(),
        timestamp: "20250102-030405".to_string(),
    }
}

#[test]
fn captures_are_asked_for() {
    let s = capture_from_args(&args()).unwrap();
    assert!(matches!(s.target, CaptureTarget::Pod { .. }));
    assert_eq!(s.output_path, "/captures/pod-default-web-20250102-030405.pcap");
    assert_eq!((s.duration_ms, s.max_bytes), (Some(30000), Some(1024)));
    assert_eq!(s.image, "img");
    let s = capture_from_args(&CaptureArgs {
        pod: None,
        out: Some("x.pcap".to_string()),
        image: Some("i".to_string()),
        duration: None,
        max_bytes: None,
        ..args()
    })
    .unwrap();
    assert!(matches!(s.target, CaptureTarget::Container(_)));
    assert_eq!((s.output_path.as_str(), s.image.as_str()), ("x.pcap", "i"));
    assert_eq!((s.duration_ms, s.max_bytes), (None, None));
}

#[test]
fn bad_captures_are_refused() {
    let p = capture_from_args(&CaptureArgs { pod: None, container: None, ..args() }).unwrap_err();
    assert_eq!(
        (p.stderr.as_str(), p.code),
        ("\x1b[31mEither --pod or --container is required\x1b[0m\n", 2)
    );
    let p = capture_from_args(&CaptureArgs { duration: Some("soon".to_string()), ..args() }).unwrap_err();
    assert_eq!(p.stderr, "\x1b[31mInvalid --duration value (try '30s', '5m', '1h')\x1b[0m\n");
    let p = capture_from_args(&CaptureArgs { max_bytes: Some("many".to_string()), ..args() }).unwrap_err();
    assert_eq!(p.stderr, "\x1b[31mInvalid --max-bytes value (try '100M', '1G')\x1b[0m\n");
    assert!(plan_capture(&args(), None, Some(1)).is_err());
}

#[test]
fn captures_are_followed() {
    assert_eq!(announce_capture("p"), "\x1b[1mCapturing → p\x1b[0m  (Ctrl-C to stop)\n");
    match follow_capture(&CaptureMessage::Progress { bytes: 10, packets: None }) {
        CaptureEnd::Going(s) => assert_eq!(s, "  \x1b[36m10 bytes  packets: --\x1b[0m\n"),
        e => panic!("{:?}", e),
    }
    match follow_capture(&CaptureMessage::Status("s".to_string())) {
        CaptureEnd::Going(s) => assert_eq!(s, "\x1b[90ms\x1b[0m\n"),
        e => panic!("{:?}", e),
    }
    let end = follow_capture(&CaptureMessage::Complete {
        path: "p".to_string(),
        bytes: 5,
        packets: Some(2),
    });
    let p = run_cli_capture(&Some(end), "q");
    assert_eq!(p.stdout, "p\n");
    assert_eq!(p.stderr, "\x1b[32m✓ Capture saved\x1b[0m  p (5 bytes, 2 packets)\n");
    let p = run_cli_capture(&None, "q");
    assert_eq!(p.stderr, "\x1b[32m✓ Capture saved\x1b[0m  q (0 bytes)\n");
    let end = follow_capture(&CaptureMessage::Failed("e".to_string()));
    let p = run_cli_capture(&Some(end), "q");
    assert_eq!((p.stderr.as_str(), p.code), ("\x1b[31mCapture failed: e\x1b[0m\n", 1));
}

#[test]
fn durations_are_printed_as_the_machine_prints_them() {
    let printed = |ns: u64| {
        let mut report = DiagnosticsReport::new();
        report.results[0].status = DiagnosticStatus::Passed;
        report.results[0].duration = Some(ns);
        SuitePrinter::new().run_cli_diagnostics(&report)
    };
    let mut all = vec![0, 1, 49_999_999, 50_000_000, 150_000_000, 250_000_000, 350_000_000, 949_999_999];
    for k in 0..400u64 {
        all.push(k * 50_000_000);
        all.push(k * 1_650_000_000 + 50_000_000);
        all.push(k * 123_456_789_012 + k);
    }
    all.push(u64::MAX);
    for ns in all {
        let secs = std::time::Duration::from_nanos(ns).as_secs_f64();
        let text = printed(ns);
        assert!(text.contains(&format!(" \x1b[90m({:.1}s)\x1b[0m", secs)), "{} {}", ns, text);
    }
    assert!(printed(150_000_000).contains("(0.1s)"));
    assert!(printed(50_000_000).contains("(0.1s)"));
}
