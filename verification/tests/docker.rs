use std::io::Read;

use k3dev::cluster::docker::container::{
    run_container, start_failed, ContainerRunConfig, Propagation,
};
use k3dev::cluster::docker::files::{
    after_wait, copy_failed, copy_to_container, ephemeral_binds, ephemeral_name,
    run_ephemeral_container, upload_of, wait_for_docker, EphemeralAction, WaitNext, WaitReport,
};
use k3dev::cluster::docker::image::{
    cache_is_fresh, registry_step, resolve_manifest, token_url, ImageRef, ManifestLayer,
    ManifestListEntry, ManifestPlatform, ManifestStep, ManifestV2, RegistryStep,
};
use k3dev::cluster::docker::pull_progress::{
    LayerPhase, MonitorAction, PullFigures, PullMonitor, PullPhase, StreamEvent,
};
use k3dev::cluster::docker::queries::{
    check_architecture_mismatch, check_cgroup_driver, exec_in_container, get_container_ports,
    get_docker_root_dir, get_pod_image_architectures, images_of_pods, images_to_inspect,
    is_accessible, list_containers_by_prefix, list_containers_with_mounts, list_images_by_pattern,
    Arch, ListedContainer, PingNext,
};
use k3dev::cluster::docker::stats::{
    all_containers, calculate_cpu_percent, containers_to_measure, current_uid,
    find_container_cgroup, get_container_stats, get_pod_stats, get_pod_stats_via_agent, stats_source,
    parse_agent_output, pod_and_namespace, read_cgroup_v1_stats,
    read_cgroup_v2_stats, search_cgroup_dir, search_cgroup_dir_broad, AgentContainer, AgentOutput,
    CachedCpuStats, CgroupVersion, ContainerUsage, CpuShare, DirVerdict,
    StatsSource,
};
use k3dev::cluster::docker::volumes::{get_volume_stats, list_command, parse_listing, parse_pvc_dir_name};
use k3dev::machine::{Event, Next};
use k3dev::textmap::TextMap;

fn strings(v: &[&str]) -> Vec<String> {
    v.iter().map(|s| s.to_string()).collect()
}

fn some(s: &str) -> Option<String> {
    Some(s.to_string())
}

fn pair(a: &str, b: &str) -> (String, String) {
    (a.to_string(), b.to_string())
}

fn container() -> ContainerRunConfig {
    let volume = |a: &str, b: &str, c: &str| (a.to_string(), b.to_string(), c.to_string());
    ContainerRunConfig {
        name: "k3dev-k3s".to_string(),
        hostname: some("h"),
        image: "img".to_string(),
        detach: true,
        privileged: true,
        ports: vec![(80, 80), (8080, 81)],
        volumes: vec![volume("vol", "/v", "volume"), volume("/a", "/b", "bind-propagation=rshared")],
        env: vec![pair("K", "V")],
        network: some("net"),
        cgroupns_host: true,
        pid_host: false,
        entrypoint: some(""),
        command: Some(strings(&["run"])),
        security_opt: strings(&["apparmor=unconfined"]),
        labels: TextMap::new(),
        auto_remove: false,
    }
}

#[test]
fn containers_are_requested() {
    let b = run_container(&container(), 1, 52);
    assert_eq!(b.name, "k3dev-k3s");
    assert_eq!(b.env, Some(strings(&["K=V"])));
    assert_eq!(b.port_bindings.get("80/tcp"), Some(&80));
    assert_eq!(b.port_bindings.get("81/tcp"), Some(&8080));
    assert_eq!(b.binds, Some(strings(&["vol:/v"])));
    let mounts = b.mounts.unwrap();
    assert_eq!((mounts[0].source.as_str(), mounts[0].target.as_str()), ("/a", "/b"));
    assert!(matches!(mounts[0].propagation, Some(Propagation::Rshared)));
    assert!(b.start);
}

#[test]
fn failed_starts_are_explained() {
    let c = container();
    let ports = start_failed(&c, "Bind for 0.0.0.0:80 failed: port is already allocated", false);
    assert!(ports.cause.is_none());
    let text = ports.message;
    assert!(text.contains("port binding error"));
    assert!(text.contains("Privileged ports configured: 80:80"));
    let other = start_failed(&c, "no such image", false);
    assert_eq!(other.message, "Failed to start container k3dev-k3s");
    assert_eq!(other.told_in_full(), "Failed to start container k3dev-k3s: no such image");
}

#[test]
fn a_file_is_archived_for_a_container() {
    let data = b"#!/bin/sh\necho hi\n".to_vec();
    let u = copy_to_container("k3s", "tool", &data, "/usr/local/bin").unwrap();
    assert_eq!((u.container.as_str(), u.path.as_str()), ("k3s", "/usr/local/bin"));
    assert_ne!(u.body, data);
    assert_eq!(u.body.len() % 512, 0);
    let mut archive = tar::Archive::new(u.body.as_slice());
    let mut entries = archive.entries().unwrap();
    let mut e = entries.next().unwrap().unwrap();
    assert_eq!(e.path().unwrap().to_string_lossy(), "tool");
    assert_eq!(e.header().mode().unwrap(), 0o755);
    let mut back = Vec::new();
    e.read_to_end(&mut back).unwrap();
    assert_eq!(back, data);
    assert!(entries.next().is_none());
    for name in ["n".repeat(100), "n".repeat(101), "n".repeat(600), "é".repeat(3), "日本".repeat(40)] {
        let u = copy_to_container("k3s", &name, &data, "/").unwrap();
        let mut archive = tar::Archive::new(u.body.as_slice());
        let mut e = archive.entries().unwrap().next().unwrap().unwrap();
        assert_eq!(e.path().unwrap().to_string_lossy(), name);
        assert_eq!(e.header().mode().unwrap(), 0o755);
        let mut back = Vec::new();
        e.read_to_end(&mut back).unwrap();
        assert_eq!(back, data);
    }
    assert!(copy_to_container("k3s", "../x", &data, "/").is_err());
    assert!(upload_of("c", "/", Err("e".to_string())).is_err());
    assert_eq!(copy_failed("f", "c", "/d"), "Failed to copy f to c:/d");
}

#[test]
fn the_daemon_is_waited_for() {
    assert!(matches!(wait_for_docker(0, false, 2), WaitNext::Ask));
    assert!(matches!(wait_for_docker(1, true, 2), WaitNext::Ready));
    assert!(matches!(wait_for_docker(1, false, 2), WaitNext::PauseAndAsk));
    match wait_for_docker(2, false, 2) {
        WaitNext::GiveUp(e) => assert_eq!(e, "Docker not accessible after 2 retries"),
        n => panic!("{:?}", n),
    }
    assert!(matches!(is_accessible(0, true), PingNext::Accessible));
    assert!(matches!(is_accessible(0, false), PingNext::Retry(_)));
    assert!(matches!(is_accessible(3, false), PingNext::NotAccessible));
}

#[test]
fn one_command_containers_are_removed() {
    assert_eq!(ephemeral_name(7), "ephemeral-7");
    assert_eq!(ephemeral_binds(&vec![]), None);
    assert_eq!(ephemeral_binds(&vec![pair("/a", "/b")]), Some(strings(&["/a:/b"])));
    assert!(matches!(after_wait(&WaitReport::Exited(0)), EphemeralAction::Wait));
    assert!(matches!(
        after_wait(&WaitReport::Trouble("No such container: x".to_string())),
        EphemeralAction::Wait
    ));
    assert!(matches!(after_wait(&WaitReport::Over), EphemeralAction::Remove(None)));
    let a = after_wait(&WaitReport::Exited(3));
    match run_ephemeral_container(a, &Event::Done).next {
        Next::Fail(e) => assert_eq!(e, "Ephemeral container exited with code 3"),
        n => panic!("{:?}", n),
    }
    match run_ephemeral_container(after_wait(&WaitReport::Trouble("e".to_string())), &Event::Done).next {
        Next::Fail(e) => assert_eq!(e, "Error waiting for ephemeral container: e"),
        n => panic!("{:?}", n),
    }
    assert!(matches!(
        run_ephemeral_container(EphemeralAction::AskImage, &Event::No).next,
        Next::Go(EphemeralAction::Pull)
    ));
    assert!(matches!(
        run_ephemeral_container(EphemeralAction::Remove(None), &Event::Done).next,
        Next::Done(())
    ));
}

#[test]
fn registries_are_asked() {
    let img = ImageRef::parse("nginx:1.25");
    assert_eq!(img.pull_name(), "library/nginx");
    assert_eq!(
        img.manifest_url("1.25"),
        "https://registry-1.docker.io/v2/library/nginx/manifests/1.25"
    );
    assert!(matches!(registry_step(401, false), RegistryStep::Authenticate));
    assert!(matches!(registry_step(401, true), RegistryStep::GiveUp));
    assert!(matches!(registry_step(204, true), RegistryStep::ReadBody));
    assert!(cache_is_fresh(0));
    assert!(!cache_is_fresh(u128::MAX));
    assert_eq!(
        token_url("Bearer realm=\"https://auth/token\",service=\"reg\",scope=\"repository:x:pull\""),
        some("https://auth/token?service=reg&scope=repository:x:pull")
    );
    assert_eq!(token_url("bearer realm=r,service=s"), some("r?service=s"));
    assert_eq!(token_url("Basic realm=r"), None);
    assert_eq!(token_url("Bearer service=s"), None);
}

#[test]
fn plain_names_are_library_images_and_digests_are_kept() {
    assert_eq!(ImageRef::parse("redis").repository, "library/redis");
    let img = ImageRef::parse("ghcr.io/a/b@sha256:0123");
    assert_eq!((img.repository.as_str(), img.tag.as_str()), ("a/b", "sha256:0123"));
}

#[test]
fn manifest_lists_are_resolved() {
    let list = ManifestV2 {
        media_type: None,
        layers: None,
        manifests: Some(vec![ManifestListEntry {
            digest: some("sha256:d"),
            platform: Some(ManifestPlatform { architecture: some("amd64"), os: some("linux") }),
        }]),
    };
    match resolve_manifest(&list, "amd64") {
        ManifestStep::Fetch(d) => assert_eq!(d, "sha256:d"),
        s => panic!("{:?}", s),
    }
    assert!(matches!(resolve_manifest(&list, "arm64"), ManifestStep::Unknown));
    let plain = ManifestV2 {
        media_type: None,
        layers: Some(vec![ManifestLayer { size: Some(5), digest: some("sha256:abc") }]),
        manifests: None,
    };
    match resolve_manifest(&plain, "amd64") {
        ManifestStep::Known(i) => assert_eq!(i.total_bytes, 5),
        s => panic!("{:?}", s),
    }
}

fn layer(id: &str, status: &str, current: i64, total: i64) -> StreamEvent {
    StreamEvent::Layer {
        id: id.to_string(),
        status: some(status),
        current: Some(current),
        total: Some(total),
    }
}

const SECOND: u128 = 1_000_000_000;

#[test]
fn pulls_are_watched() {
    let (mut m, first) = PullMonitor::start("c".to_string(), "i".to_string(), None, 0, 0);
    assert!(first.is_none());
    let send = m.on_event(layer("a", "Downloading", 50, 100), SECOND);
    match send {
        MonitorAction::Send(p) => {
            assert_eq!((p.downloaded_bytes, p.total_bytes), (50, 100));
            assert_eq!(p.phase, PullPhase::Downloading);
        }
        a => panic!("{:?}", a),
    }
    assert!(matches!(m.on_event(layer("a", "Downloading", 60, 100), SECOND + 1), MonitorAction::Continue));
    assert_eq!(m.layers.get("a").unwrap().phase, LayerPhase::Downloading);
    assert!(matches!(m.on_event(StreamEvent::Failed, 2 * SECOND), MonitorAction::Failed));
    assert!(matches!(
        m.on_event(StreamEvent::General, 400 * SECOND),
        MonitorAction::Stalled
    ));
    assert!(matches!(m.on_event(StreamEvent::General, 1801 * SECOND), MonitorAction::TimedOut));
}

#[test]
fn shown_bytes_never_go_back() {
    let figures = |d, t| PullFigures {
        total_bytes: t,
        downloaded_bytes: d,
        tracking_available: true,
        phase: PullPhase::Downloading,
        layers_done: 0,
        layers_total: 1,
    };
    let a = figures(50, 100).advance(figures(20, 200));
    assert_eq!((a.downloaded_bytes, a.total_bytes), (50, 200));
    assert_eq!(PullFigures::none().advance(figures(1, 2)).downloaded_bytes, 1);
    let (mut m, _) = PullMonitor::start("c".to_string(), "i".to_string(), None, 0, 0);
    m.on_event(layer("a", "Already exists", 0, 0), SECOND);
    m.on_event(layer("a", "Already exists", 0, 0), 2 * SECOND);
    assert_eq!(m.layers.len(), 1);
    for l in &m.layers.entries {
        assert!(l.1.current_bytes <= l.1.total_bytes);
    }
}

#[test]
fn the_daemon_is_asked_about_itself() {
    assert_eq!(check_architecture_mismatch(Some(Arch::X86_64), &some("x86_64")), None);
    let text = check_architecture_mismatch(Some(Arch::X86_64), &some("aarch64")).unwrap();
    assert!(text.starts_with("Architecture mismatch: k3dev binary is compiled for x86_64"));
    assert_eq!(get_docker_root_dir(&None), "/var/lib/docker");
    assert_eq!(get_docker_root_dir(&some("/d")), "/d");
    assert!(check_cgroup_driver(&some("systemd")).is_err());
    assert!(check_cgroup_driver(&some("cgroupfs")).is_ok());
}

#[test]
fn commands_that_fail_say_so() {
    let cmd = strings(&["sh", "-c", "exit \"3\""]);
    assert_eq!(exec_in_container(&cmd, Some(0), "out".to_string()), Ok("out".to_string()));
    assert_eq!(
        exec_in_container(&cmd, Some(3), " bad \n".to_string()),
        Err("Command [\"sh\", \"-c\", \"exit \\\"3\\\"\"] exited with code 3: bad".to_string())
    );
    assert_eq!(
        exec_in_container(&strings(&["cat", "it's ~"]), Some(1), String::new()),
        Err("Command [\"cat\", \"it's ~\"] exited with code 1: ".to_string())
    );
    assert_eq!(
        exec_in_container(&Vec::new(), Some(-1), String::new()),
        Err("Command [] exited with code -1: ".to_string())
    );
}

#[test]
fn published_ports_are_read() {
    let m = get_container_ports(&vec![
        ("80/tcp".to_string(), Some(vec![some("8080")])),
        ("0/tcp".to_string(), Some(vec![some("1")])),
        ("443/tcp".to_string(), None),
        ("x".to_string(), Some(vec![some("2")])),
    ]);
    assert_eq!(m.get(&80), Some(&8080));
    assert_eq!(m.get(&443), None);
    assert_eq!(m.get(&0), None);
}

#[test]
fn containers_and_images_are_listed() {
    assert_eq!(list_containers_by_prefix(&strings(&["/a", "b"]), ""), strings(&["a", "b"]));
    assert_eq!(
        list_containers_by_prefix(&strings(&["/k8s_a", "/my-k8s_b", "k8s_c", "//k8s_d"]), "k8s_"),
        strings(&["k8s_a", "k8s_c", "k8s_d"])
    );
    let v = list_containers_with_mounts(&vec![ListedContainer {
        name: some("/k8s_web_pod-1_default_uid_0"),
        mounts: vec![some("/data"), None],
    }]);
    assert_eq!(v[0].pod_name, "pod-1");
    assert_eq!(v[0].mounts.len(), 1);
    let pods = images_of_pods(&vec![
        (some("/k8s_web_p_ns_uid_0"), some("img1")),
        (some("/k8s_POD_p_ns_uid_0"), some("pause")),
        (some("/other"), some("x")),
    ]);
    assert_eq!(pods, vec![pair("ns/p", "img1")]);
    assert_eq!(images_to_inspect(&pods), strings(&["img1"]));
    assert_eq!(
        get_pod_image_architectures(&pods, &vec![pair("img1", "arm64")]),
        vec![pair("ns/p", "arm64")]
    );
    assert_eq!(
        list_images_by_pattern(&strings(&["k3dev-snapshot-a:latest", "other:1"]), "k3dev-snapshot-"),
        strings(&["k3dev-snapshot-a:latest"])
    );
}

fn cached(usage: u64, at: u64, share: CpuShare) -> Option<CachedCpuStats> {
    Some(CachedCpuStats { usage_usec: usage, timestamp_usec: at, share })
}

fn percent(s: CpuShare) -> f64 {
    s.usage as f64 / s.time as f64 * 100.0
}

#[test]
fn processor_shares_are_measured() {
    let idle = CpuShare { usage: 0, time: 1 };
    let (first, memory) = calculate_cpu_percent(&None, 500, 1_000_000, 4, true);
    assert_eq!(percent(first), 0.0);
    assert_eq!(memory.usage_usec, 500);
    let (share, _) = calculate_cpu_percent(&cached(0, 0, idle), 500_000, 1_000_000, 4, true);
    assert_eq!(percent(share), 50.0);
    // Two measurements within a tenth of a second repeat the last share.
    let half = CpuShare { usage: 1, time: 2 };
    let (share, _) = calculate_cpu_percent(&cached(0, 0, half), 99_999, 99_999, 4, true);
    assert_eq!(percent(share), 50.0);
    // A jump of more than three cores to more than five is no measurement.
    let (share, _) = calculate_cpu_percent(&cached(0, 0, half), 6_000_000, 1_000_000, 8, true);
    assert_eq!(percent(share), 50.0);
    // No share is larger than the machine.
    let (share, _) = calculate_cpu_percent(&cached(0, 0, idle), 3_000_000, 1_000_000, 2, true);
    assert_eq!(percent(share), 200.0);
}

#[test]
fn control_groups_are_read() {
    let u = read_cgroup_v2_stats(
        &some("usage_usec 7\n"),
        &some("50000 100000"),
        &some("10\n"),
        &some("max\n"),
    );
    assert_eq!((u.usage_usec, u.cpu_limit, u.memory_used, u.memory_limit), (7, Some((50000, 100000)), 10, None));
    let u = read_cgroup_v1_stats(&some("7000\n"), &some("-1"), &some("100000"), &some("3"), &some("4"));
    assert_eq!((u.usage_usec, u.cpu_limit, u.memory_used, u.memory_limit), (7, None, 3, Some(4)));
}

#[test]
fn control_groups_are_searched() {
    let places = find_container_cgroup(CgroupVersion::V2, Some(1000), "abc");
    assert!(!places.is_empty());
    assert!(matches!(search_cgroup_dir("abc", "abc"), DirVerdict::Found));
    assert!(matches!(search_cgroup_dir("pod1", "abc"), DirVerdict::Descend));
    assert!(matches!(search_cgroup_dir("docker-abc.scope", "abc"), DirVerdict::Skip));
    assert!(matches!(search_cgroup_dir_broad("abc", "abc", 0), DirVerdict::Found));
    assert!(matches!(search_cgroup_dir_broad("x", "abc", 1), DirVerdict::Descend));
    assert!(matches!(search_cgroup_dir_broad("abc", "abc", 2), DirVerdict::Found));
    assert!(matches!(search_cgroup_dir_broad("x", "abc", 2), DirVerdict::Skip));
    assert!(matches!(search_cgroup_dir_broad("abc", "abc", 3), DirVerdict::Skip));
    assert_eq!(current_uid(Some(5), Some(6)), Some(5));
    assert_eq!(current_uid(None, Some(6)), Some(6));
    assert_eq!(containers_to_measure(&strings(&["a", "b"]), &strings(&["b", "c"])).len(), 3);
    let whole = strings(&["a", "k8s_POD_x", "k8s_y"]);
    assert_eq!(all_containers(&whole[..1].to_vec(), &whole), whole);
    assert_eq!(containers_to_measure(&whole, &vec![]), strings(&["a", "k8s_y"]));
    assert_eq!(pod_and_namespace("k8s_web_p_ns_uid_0"), pair("p", "ns"));
}

#[test]
fn pods_are_listed_once() {
    let usage = |name: &str, mem| ContainerUsage {
        name: name.to_string(),
        namespace: "ns".to_string(),
        cpu: CpuShare { usage: 1, time: 4 },
        cpu_limit: Some((1, 2)),
        memory_used: mem,
        memory_limit: None,
    };
    let v = get_pod_stats(&vec![usage("b", 1), usage("a", 2), usage("b", 3)]);
    assert_eq!(v.len(), 2);
    let b = v.iter().find(|p| p.name == "b").unwrap();
    assert_eq!(b.memory_used, vec![1, 3]);
    assert_eq!(b.cpu.len(), 2);
    assert_eq!(b.memory_limits, None);
}

#[test]
fn the_agent_reports() {
    assert!(parse_agent_output("").is_err());
    assert!(parse_agent_output("{\"ts\":1}").is_ok());
    let c = |id: &str, pod: &str, n| AgentContainer {
        id: id.to_string(),
        pod: pod.to_string(),
        ns: "ns".to_string(),
        cpu_usec: n,
        cpu_quota: -1,
        cpu_period: 100000,
        mem_current: 5,
        mem_max: -1,
    };
    let mut cache = TextMap::new();
    let report = |ts, n| AgentOutput {
        ts,
        containers: vec![c("1", "p", n), c("2", "_unknown", n)],
    };
    let v = get_pod_stats_via_agent(&report(1_000_000, 0), &mut cache, 4);
    assert_eq!(v.len(), 1);
    assert_eq!(percent(v[0].cpu[0]), 0.0);
    let v = get_pod_stats_via_agent(&report(2_000_000, 250_000), &mut cache, 4);
    assert_eq!(percent(v[0].cpu[0]), 25.0);
    assert_eq!(v[0].memory_used, vec![5]);
}

#[test]
fn volumes_are_measured() {
    assert!(list_command("/pv").contains("/pv"));
    let listing = "4096\tpvc-1_default_data/\n10 pvc-2_ns_my_claim/\njunk\n7\tother/\n";
    assert_eq!(parse_listing(listing), vec![("pvc-1_default_data".to_string(), 4096)]);
    let v = get_volume_stats(listing, &vec![]);
    assert!(v.iter().any(|x| x.pvc_name == "data" && x.namespace == "default" && x.used_bytes == 4096));
    // A claim's directory reads back.
    assert_eq!(parse_pvc_dir_name("pvc-9_ns_my_claim"), Some(pair("ns", "my_claim")));
}

#[test]
fn control_groups_stand_in_for_the_agent() {
    assert_eq!(stats_source(false, false), Ok(StatsSource::Agent));
    assert_eq!(stats_source(false, true), Ok(StatsSource::Agent));
    assert_eq!(stats_source(true, false), Ok(StatsSource::ControlGroups));
    assert_eq!(
        stats_source(true, true),
        Err("Host-side cgroup stats unavailable with remote Docker".to_string())
    );
}

#[test]
fn the_cluster_uses_what_its_containers_use() {
    let used = |usage, memory_used, memory_limit| ContainerUsage {
        name: String::new(),
        namespace: String::new(),
        cpu: CpuShare { usage, time: 10 },
        cpu_limit: None,
        memory_used,
        memory_limit,
    };
    let all = get_container_stats(&vec![
        used(1, 100, None),
        used(2, 200, Some(0)),
        used(3, 300, Some(4096)),
        used(4, 400, Some(8192)),
    ]);
    assert_eq!(all.cpu.iter().map(|c| c.usage).collect::<Vec<u64>>(), vec![1, 2, 3, 4]);
    assert_eq!(all.memory_used, vec![100, 200, 300, 400]);
    assert_eq!(all.memory_total, Some(4096));
    assert_eq!(get_container_stats(&vec![]).memory_total, None);
}
