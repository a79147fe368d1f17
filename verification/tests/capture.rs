use std::time::Duration;

use k3dev::capture::sidecar::{build_capture_config, build_tcpdump_cmd, CAPTURE_LABEL};
use k3dev::capture::spec::{default_output_path, parse_bytes, parse_duration, CaptureTarget};
use k3dev::capture::stream::parse_packet_count;

#[test]
fn parse_packet_count_matches() {
    assert_eq!(parse_packet_count("142 packets captured"), Some(142));
    assert_eq!(parse_packet_count("0 packets captured by filter"), Some(0));
    assert_eq!(parse_packet_count("listening on any"), None);
}

#[test]
fn cmd_default_iface() {
    let cmd = build_tcpdump_cmd("any", None);
    assert_eq!(
        cmd,
        vec!["tcpdump", "-i", "any", "-U", "-s", "0", "-w", "-"]
    );
}

#[test]
fn cmd_with_filter() {
    let cmd = build_tcpdump_cmd("eth0", Some("port 80"));
    assert_eq!(cmd.last().unwrap(), "port 80");
    assert!(cmd.iter().any(|s| s == "eth0"));
}

#[test]
fn cmd_strips_empty_filter() {
    let cmd = build_tcpdump_cmd("any", Some("   "));
    // No trailing filter when blank.
    assert_eq!(cmd.last().unwrap(), "-");
}

#[test]
fn config_shares_target_netns() {
    let cfg = build_capture_config(
        "k3dev-capture-1",
        "abc123",
        "nicolaka/netshoot",
        "any",
        None,
        "pod default/nginx",
    );
    assert_eq!(cfg.network.as_deref(), Some("container:abc123"));
    assert!(cfg.privileged);
    assert!(cfg.auto_remove);
    assert_eq!(cfg.entrypoint.as_deref(), Some(""));
    assert_eq!(
        cfg.labels.get(CAPTURE_LABEL).map(|s| s.as_str()),
        Some("true")
    );
    assert_eq!(
        cfg.labels.get("k3dev.target").map(|s| s.as_str()),
        Some("pod default/nginx")
    );
    let cmd = cfg.command.as_ref().expect("command set");
    assert_eq!(cmd[0], "tcpdump");
}

#[test]
fn config_passes_filter_through_to_tcpdump() {
    let cfg = build_capture_config("s", "id", "img", "any", Some("tcp port 443"), "desc");
    let cmd = cfg.command.as_ref().unwrap();
    assert_eq!(cmd.last().unwrap(), "tcp port 443");
}

#[test]
fn label_pod_sanitizes() {
    let t = CaptureTarget::Pod {
        pod: "my-app/v1".to_string(),
        namespace: "default".to_string(),
    };
    let label = t.label();
    assert!(label.starts_with("pod-default-my-app-v1"));
    assert!(!label.contains('/'));
}

#[test]
fn label_container_sanitizes() {
    let t = CaptureTarget::Container("k8s_POD_x_y_uid_0".to_string());
    let label = t.label();
    assert!(label.starts_with("container-"));
    assert!(label
        .chars()
        .all(|c| c.is_ascii_alphanumeric() || c == '-' || c == '_'));
}

#[test]
fn default_output_path_format() {
    let s = default_output_path(
        "/tmp/cap",
        &CaptureTarget::Container("foo".to_string()),
        "20250102-030405",
    );
    assert!(s.starts_with("/tmp/cap/container-foo-"));
    assert!(s.ends_with(".pcap"));
}

fn duration(s: &str) -> Option<Duration> {
    parse_duration(s).map(Duration::from_millis)
}

#[test]
fn parse_duration_units() {
    assert_eq!(duration("5s"), Some(Duration::from_secs(5)));
    assert_eq!(duration("250ms"), Some(Duration::from_millis(250)));
    assert_eq!(duration("2m"), Some(Duration::from_secs(120)));
    assert_eq!(duration("1h"), Some(Duration::from_secs(3600)));
    assert_eq!(duration("30"), Some(Duration::from_secs(30)));
    assert!(duration("abc").is_none());
    assert!(duration("").is_none());
}

#[test]
fn parse_bytes_units() {
    assert_eq!(parse_bytes("100"), Some(100));
    assert_eq!(parse_bytes("100B"), Some(100));
    assert_eq!(parse_bytes("1K"), Some(1024));
    assert_eq!(parse_bytes("2M"), Some(2 * 1024 * 1024));
    assert_eq!(parse_bytes("1G"), Some(1024 * 1024 * 1024));
    assert!(parse_bytes("xyz").is_none());
}

/// The same text read with the machine's own numbers.
fn by_machine(number: &str, unit: &str) -> Option<u64> {
    let n: f64 = number.parse().ok()?;
    if unit == "ms" {
        // A whole number of milliseconds stays what it is.
        return Some(number.parse::<u64>().unwrap_or(n as u64));
    }
    let secs = match unit {
        "s" | "" => n,
        "m" => n * 60.0,
        "h" => n * 3600.0,
        _ => return None,
    };
    if !secs.is_finite() {
        return None;
    }
    Some((secs * 1000.0) as u64)
}

#[test]
fn fractions_are_rounded_as_the_machine_rounds_them() {
    let numbers = [
        "1.001", "0.57", "1001", "0.1", "0.3", "2.675", "1e", "0.0004", "1.9999999999999999999",
        "123456789.987654321", "9007199254740993", "18446744073709551616", "0.29", "4.35", "00012.50",
        ".5", "5.", "0", "0.0000000000000000000000000000001", "179769313486231570", "33.333333333333",
    ];
    for n in numbers {
        for u in ["ms", "s", "m", "h", ""] {
            let text = format!("{}{}", n, u);
            if n.ends_with('e') {
                assert_eq!(parse_duration(&text), None);
            } else {
                assert_eq!(parse_duration(&text), by_machine(n, u), "{}", text);
            }
        }
    }
    assert_eq!(parse_duration("1001ms"), Some(1001));
    assert_eq!(parse_duration("9007199254740993ms"), Some(9007199254740993));
    assert_eq!(parse_duration("18446744073709551615ms"), Some(u64::MAX));
    assert_eq!(parse_duration("99999999999999999999ms"), Some(u64::MAX));
    assert_eq!(parse_duration("1001.7ms"), Some(1001));
    assert_eq!(parse_duration("1.001s"), Some(1000));
}

#[test]
fn numbers_without_limit_are_refused_or_capped() {
    let huge = "9".repeat(400);
    assert_eq!(parse_duration(&huge), None);
    assert_eq!(parse_bytes(&huge), None);
    let large = "9".repeat(308);
    assert_eq!(parse_duration(&large), by_machine(&large, "s"));
    assert_eq!(parse_duration(&large), Some(u64::MAX));
    assert_eq!(parse_bytes(&format!("{}G", "9".repeat(305))), None);
    assert_eq!(parse_bytes(&format!("{}G", "9".repeat(290))), Some(u64::MAX));
}

#[test]
fn sizes_take_units_in_any_case() {
    assert_eq!(parse_bytes("1.5 GiB"), Some(1610612736));
    assert_eq!(parse_bytes("10kb"), Some(10240));
    assert_eq!(parse_bytes("0.1K"), Some(102));
    assert_eq!(parse_bytes("3 mib"), Some(3 * 1024 * 1024));
    assert_eq!(parse_bytes("1.2.3"), None);
    assert_eq!(parse_bytes("."), None);
    assert_eq!(parse_bytes("   "), None);
    assert_eq!(parse_bytes("5T"), None);
    // The small letter without a dot has a capital that is no ASCII letter's.
    assert_eq!(parse_bytes("1ß"), None);
}
