use k3dev::agent::{
    build_json, collect_cgroups, derive_v1_memory_path, is_cgroup_v2, parse_container_list,
    push_i64, push_json_escaped, push_u64, query_docker_containers, query_docker_socket, quota_of,
    read_cgroup_v1_files, read_cgroup_v2_files, usage_of, walk_cgroup_dir, CgroupStats, DirKind,
    SocketNext,
};

fn some(s: &str) -> Option<String> {
    Some(s.to_string())
}

#[test]
fn usage_and_quota_are_read() {
    assert_eq!(usage_of("usage_usec 1234\nuser_usec 5\n"), 1234);
    assert_eq!(usage_of("user_usec 5\n"), 0);
    assert_eq!(quota_of("100000 100000\n"), (100000, 100000));
    assert_eq!(quota_of("max 100000\n").0, -1);
}

#[test]
fn the_unified_hierarchy_is_read() {
    let s = read_cgroup_v2_files(
        &some("usage_usec 42\n"),
        &some("50000 100000\n"),
        &some("1048576\n"),
        &some("max\n"),
    )
    .unwrap();
    assert_eq!(
        (s.usage_usec, s.cpu_quota, s.cpu_period, s.mem_current, s.mem_max),
        (42, 50000, 100000, 1048576, -1)
    );
    assert!(read_cgroup_v2_files(&None, &some("max 100000"), &some("1"), &some("1")).is_none());
}

#[test]
fn the_older_hierarchy_is_read() {
    let s = read_cgroup_v1_files(
        &some("5000000\n"),
        &some("-1\n"),
        &some("100000\n"),
        &Some((some("77\n"), some("9223372036854771712\n"))),
    );
    assert_eq!(s.usage_usec, 5000);
    assert_eq!(s.cpu_quota, -1);
    assert_eq!(s.mem_current, 77);
    assert_eq!(s.mem_max, -1);
}

#[test]
fn directories_are_told_apart() {
    let id = "0123456789abcdef".repeat(4);
    assert!(matches!(walk_cgroup_dir("burstable", false, true), DirKind::Group));
    assert!(matches!(walk_cgroup_dir("pod1", true, true), DirKind::Group));
    assert!(matches!(walk_cgroup_dir("kubepods", false, true), DirKind::Neither));
    assert!(matches!(walk_cgroup_dir("kubepods", false, false), DirKind::Group));
    assert!(matches!(walk_cgroup_dir(&id, true, false), DirKind::Container));
    assert!(is_cgroup_v2(true));
    assert!(!is_cgroup_v2(false));
    assert!(collect_cgroups(true, false, true, true).is_none());
    assert!(collect_cgroups(true, true, false, false).is_some());
}

#[test]
fn memory_paths_follow_processor_paths() {
    assert_eq!(
        derive_v1_memory_path("/sys/fs/cgroup/cpu/kubepods/x"),
        some("/sys/fs/cgroup/memory/kubepods/x")
    );
    assert_eq!(derive_v1_memory_path("/elsewhere"), None);
}

#[test]
fn containers_are_found_in_a_listing() {
    let body = "[{\"Id\":\"abc\",\"Names\":[\"/k8s_web_pod-1_default_uid_0\"],\"Image\":\"x\"},\
                {\"Id\":\"def\",\"Names\":[\"/other\"]}]";
    let v = parse_container_list(body);
    assert!(v.contains(&("abc".to_string(), ("pod-1".to_string(), "default".to_string()))));
    let answer = format!("HTTP/1.0 200 OK\r\nServer: x\r\n\r\n{}", body);
    assert_eq!(query_docker_socket(&answer), v);
    assert!(matches!(query_docker_containers(1, true), SocketNext::Finished));
    assert!(matches!(query_docker_containers(0, true), SocketNext::AskRaw));
    assert!(matches!(query_docker_containers(0, false), SocketNext::Finished));
}

#[test]
fn escaped_texts_read_back() {
    for s in ["plain", "a\"b", "back\\slash", "line\nfeed", "ünï\u{1F600}"] {
        let mut out = String::new();
        push_json_escaped(&mut out, s);
        let back: String = serde_json::from_str(&format!("\"{}\"", out)).unwrap();
        assert_eq!(back, s);
    }
}

#[test]
fn numbers_are_written() {
    let mut s = String::new();
    push_u64(&mut s, u64::MAX);
    push_i64(&mut s, -7);
    assert_eq!(s, "18446744073709551615-7");
}

#[test]
fn a_report_is_valid_json() {
    let stats = |n: u64| CgroupStats {
        usage_usec: n,
        cpu_quota: -1,
        cpu_period: 100000,
        mem_current: 5,
        mem_max: -1,
    };
    let json = build_json(
        17,
        &vec![("abc".to_string(), stats(1)), ("zzz".to_string(), stats(2))],
        &vec![("abc".to_string(), ("pod\"1".to_string(), "default".to_string()))],
    );
    let v: serde_json::Value = serde_json::from_str(&json).unwrap();
    assert_eq!(v["ts"], 17);
    let all = v["containers"].as_array().unwrap();
    assert_eq!(all.len(), 2);
    assert_eq!(all[0]["pod"], "pod\"1");
    assert_eq!(all[0]["cpu"], 1);
    assert_eq!(all[1]["ml"], -1);
}
