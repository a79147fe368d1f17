use k3dev::cluster::ingress::{
    finish_clean, finish_update, hosts_file_read_only, update_lines, HostsFileMode, HostsPlan,
    HostsUpdateResult, IngressEntry, IngressHealthChecker, IngressHealthStatus, IngressManager,
};

fn strings(v: &[&str]) -> Vec<String> {
    v.iter().map(|s| s.to_string()).collect()
}

fn entry(host: &str, paths: &[&str]) -> IngressEntry {
    IngressEntry { host: host.to_string(), paths: strings(paths) }
}

#[test]
fn endpoints_are_checked() {
    assert_eq!(IngressHealthChecker::endpoint_url("a.b", "/x"), "http://a.b/x");
    assert_eq!(IngressHealthChecker::endpoint_key("a.b", "/x"), "a.b|/x");
    assert!(matches!(IngressHealthChecker::check_endpoint(Some(200)), IngressHealthStatus::Healthy));
    assert!(matches!(IngressHealthChecker::check_endpoint(Some(503)), IngressHealthStatus::Error));
    let all = IngressHealthChecker::check_endpoints(&vec![entry("a", &["/", "/x"]), entry("b", &["/"])]);
    assert_eq!(all.len(), 3);
    assert_eq!(IngressHealthStatus::Unknown.dot(), "○");
}

#[test]
fn hosts_of_ingresses_are_collected() {
    let m = IngressManager::with_domain("k3s.local".to_string());
    assert_eq!(m.traefik_dashboard_domain(), Some("traefik.k3s.local".to_string()));
    let hosts = m.get_ingress_hosts(true, &strings(&["b.local", "a.local"]), &strings(&["a.local"]));
    assert_eq!(hosts.iter().filter(|h| *h == "a.local").count(), 1);
    assert!(hosts.contains(&"traefik.k3s.local".to_string()));
    assert!(!m
        .get_ingress_hosts(false, &strings(&["a.local"]), &vec![])
        .contains(&"traefik.k3s.local".to_string()));
    let entries = m.get_ingress_entries(
        true,
        &vec![entry("b", &["/y"]), entry("a", &["/"])],
        &vec![entry("b", &["/x", "/y"])],
    );
    let names: Vec<&str> = entries.iter().map(|e| e.host.as_str()).collect();
    assert_eq!(names, vec!["a", "b", "traefik.k3s.local"]);
    assert_eq!(entries[1].paths.len(), 2);
}

#[test]
fn entries_are_in_order_and_have_the_hosts_of_the_cluster() {
    let m = IngressManager::with_domain("z".to_string());
    let ingresses = vec![entry("b", &["/y", "/x", "/y"]), entry("", &["/"]), entry("a", &[])];
    let routes = vec![entry("b", &["/a"]), entry("c", &["/"])];
    let entries = m.get_ingress_entries(true, &ingresses, &routes);
    let hosts = |v: &Vec<IngressEntry>| v.iter().map(|e| e.host.clone()).collect::<Vec<String>>();
    assert_eq!(hosts(&entries), strings(&["a", "b", "c", "traefik.z"]));
    assert_eq!(entries[1].paths, strings(&["/a", "/x", "/y"]));
    let mut all = m.get_ingress_hosts(true, &hosts(&ingresses), &hosts(&routes));
    all.sort();
    assert_eq!(all, hosts(&entries));
}

#[test]
fn an_update_makes_hosts_resolvable_and_is_enough() {
    let m = IngressManager::new();
    let content = "127.0.0.1 localhost\n# comment\n127.0.0.1 old.local # k3dev-ingress\n10.0.0.1 x y\n";
    let hosts = strings(&["a.local", "b.local"]);
    assert_eq!(m.get_k3dev_hosts_from_etc_hosts(content), strings(&["old.local"]));
    assert_eq!(m.get_missing_hosts(&hosts, content), hosts);
    assert!(m.hosts_need_update(&hosts, content));
    let new = match m.update_hosts(&hosts, content) {
        HostsPlan::Write { content, count, entries } => {
            assert_eq!(count, 2);
            assert_eq!(entries[0], "127.0.0.1 a.local # k3dev-ingress");
            content
        }
        p => panic!("{:?}", p),
    };
    assert_eq!(
        new,
        "127.0.0.1 localhost\n# comment\n10.0.0.1 x y\n127.0.0.1 a.local # k3dev-ingress\n\
         127.0.0.1 b.local # k3dev-ingress\n"
    );
    assert!(!m.hosts_need_update(&hosts, &new));
    assert!(matches!(m.update_hosts(&hosts, &new), HostsPlan::UpToDate));
    assert!(matches!(m.update_hosts(&vec![], &new), HostsPlan::NoHosts));
    assert_eq!(m.clean_hosts(&new), "127.0.0.1 localhost\n# comment\n10.0.0.1 x y\n");
    assert!(m.get_k3dev_hosts_from_etc_hosts(&m.clean_hosts(&new)).is_empty());
    assert!(m.get_all_hosts_from_etc_hosts(&new).contains(&"a.local".to_string()));
}

#[test]
fn results_of_updates_are_told() {
    let plan = || HostsPlan::Write { content: "c".to_string(), entries: strings(&["e"]), count: 1 };
    assert!(matches!(finish_update(HostsPlan::UpToDate, true, true), HostsUpdateResult::NoUpdateNeeded));
    assert!(matches!(
        finish_update(plan(), false, true),
        HostsUpdateResult::WrittenDirectly { count: 1 }
    ));
    assert!(matches!(finish_update(plan(), false, false), HostsUpdateResult::NeedsSudo { .. }));
    assert!(matches!(finish_update(plan(), true, false), HostsUpdateResult::ReadOnly { .. }));
    let r = finish_update(plan(), false, true);
    assert_eq!(update_lines(&plan(), &r)[0].text, "Updated /etc/hosts with 1 entries");
    assert_eq!(finish_clean("c".to_string(), true).1.text, "Cleaned /etc/hosts entries");
    assert_eq!(
        finish_clean("c".to_string(), false).1.text,
        "Requesting elevated privileges to clean /etc/hosts..."
    );
    let m = IngressManager::new();
    assert_eq!(m.show_hosts(&vec![])[0].text, "No ingress hosts found");
    assert_eq!(m.show_hosts(&strings(&["a"]))[1].text, "  a");
    assert!(!hosts_file_read_only(&HostsFileMode { mode: 0o644, uid: 0, is_root: true }));
}
