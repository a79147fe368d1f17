use k3dev::cluster::config::{
    ClusterConfig, HookEntry, HooksConfig, InfrastructureConfig, SpeedupConfig,
};
use k3dev::cluster::k3s::info::{describe_cluster, ClusterFacts};
use k3dev::cluster::k3s::launch::{
    container_to_create, container_to_restore, kubelet_root_dir, local_pv_storage_path, settings_of,
    HostFacts,
};
use k3dev::cluster::k3s::lifecycle::{
    begin_create, begin_delete, begin_restore, begin_start, begin_stop, cleaned_up,
    create_cluster, delete, start, start_from_snapshot, stop, CreateAction, CreateEvent, DeleteAction,
    LifecycleSettings, RestoreAction, StartAction, StartOutcome, StopAction,
};
use k3dev::cluster::k3s::provisioner::{
    begin_provisioner, configure_local_path_provisioner, pause_before, provisioner_config,
    ProvisionerAction,
};
use k3dev::cluster::k3s::setup::{
    access_is_complete, api_url, ask_presence, await_deployment, begin_cluster_ready, fix_access,
    install_binary_via_docker_cp, install_tool, path_of_tool, place_in_container, setup_kubeconfig,
    temporary_name, wait_for_cluster_ready, wait_for_deployment, AccessAction, ApiNext, ApiWait,
    InstallAction, Tool, ToolAction, ToolNext,
};
use k3dev::cluster::k3s::snapshots::{
    begin_snapshot, calculate_config_hash, cleanup_old_snapshots, cleanup_report,
    compute_snapshot_image_name, create_snapshot, delete_report, delete_snapshots, is_deep_snapshot,
    mark_of, name_snapshot, sanitize_version, snapshot_copy_command, snapshot_labels,
    state_description, SnapshotAction,
};
use k3dev::cluster::k3s::status::{get_status, ClusterStatus};
use k3dev::cluster::manager;
use k3dev::cluster::manager::{
    describe_platform, RemoveAction, RestartAction, ServiceAction, ServiceSettings,
};
use k3dev::machine::{Event, Next, Step, Trouble};
use sha2::Digest;

fn strings(v: &[&str]) -> Vec<String> {
    v.iter().map(|s| s.to_string()).collect()
}

fn config() -> ClusterConfig {
    ClusterConfig::from(InfrastructureConfig {
        k3s_version: "v1.33.0+k3s1".to_string(),
        domain: "k3s.local".to_string(),
        container_name: "k3dev-k3s".to_string(),
        network_name: "k3dev".to_string(),
        api_port: 6443,
        http_port: 80,
        https_port: 443,
        additional_ports: vec!["2345:2345".to_string()],
        speedup: SpeedupConfig { use_snapshot: true, snapshot_auto_cleanup: true },
    })
}

fn trouble() -> Trouble {
    Trouble { message: "e".to_string(), cause: Some("c".to_string()) }
}

fn failed() -> Event {
    Event::Failed("x".to_string())
}

fn texts<S, O>(s: &Step<S, O>) -> Vec<String> {
    s.lines.iter().map(|l| l.text.clone()).collect()
}

#[test]
fn states_of_the_container_are_read() {
    assert_eq!(get_status(false, &None), ClusterStatus::RuntimeNotRunning);
    assert_eq!(get_status(true, &None), ClusterStatus::NotCreated);
    assert_eq!(get_status(true, &Some("running".to_string())), ClusterStatus::Running);
    assert_eq!(get_status(true, &Some("exited".to_string())), ClusterStatus::Stopped);
    assert_eq!(get_status(true, &Some("restarting".to_string())), ClusterStatus::Starting);
    assert_eq!(get_status(true, &Some("paused".to_string())), ClusterStatus::Paused);
    assert_eq!(get_status(true, &Some("odd".to_string())), ClusterStatus::Unknown);
    assert_eq!(ClusterStatus::NotCreated.as_str(), "Not Created");
}

fn settings(snapshot: bool) -> LifecycleSettings {
    LifecycleSettings { use_snapshot: snapshot, snapshot_auto_cleanup: true, has_hooks: true }
}

/// Runs a start with the answers to its questions and returns what was done.
fn run_start(s: &LifecycleSettings, bad: &[StartAction]) -> (Vec<StartAction>, Result<StartOutcome, String>) {
    let mut step = begin_start();
    let mut done = Vec::new();
    loop {
        match step.next {
            Next::Go(a) => {
                let ev = if bad.contains(&a) {
                    match a {
                        StartAction::AskDocker
                        | StartAction::AskRunning
                        | StartAction::AskExists
                        | StartAction::AskSnapshot
                        | StartAction::AskDeep => Event::No,
                        _ => failed(),
                    }
                } else {
                    match a {
                        StartAction::AskDocker
                        | StartAction::AskRunning
                        | StartAction::AskExists
                        | StartAction::AskSnapshot
                        | StartAction::AskDeep => Event::Yes,
                        _ => Event::Done,
                    }
                };
                done.push(a);
                assert!(done.len() < 30);
                step = start(a, &ev, s);
            }
            Next::Done(o) => return (done, Ok(o)),
            Next::Fail(e) => return (done, Err(e)),
        }
    }
}

#[test]
fn a_running_cluster_is_left_alone() {
    let (done, outcome) = run_start(&settings(true), &[]);
    assert!(matches!(outcome, Ok(StartOutcome::AlreadyRunning)));
    assert!(!done.iter().any(|a| matches!(a, StartAction::StartContainer | StartAction::CreateCluster)));
}

#[test]
fn clusters_start_in_each_way() {
    let (_, o) = run_start(&settings(true), &[StartAction::AskRunning]);
    assert!(matches!(o, Ok(StartOutcome::StartedExisting)));
    let (done, o) = run_start(&settings(true), &[StartAction::AskRunning, StartAction::AskExists]);
    assert!(matches!(o, Ok(StartOutcome::StartedFromSnapshot)));
    assert!(done.contains(&StartAction::StartFromSnapshot(true)));
    let none = [StartAction::AskRunning, StartAction::AskExists, StartAction::AskSnapshot];
    let (done, o) = run_start(&settings(true), &none);
    assert!(matches!(o, Ok(StartOutcome::FreshCreated)));
    assert!(done.contains(&StartAction::CreateSnapshot));
    let (done, o) = run_start(&settings(false), &none);
    assert!(matches!(o, Ok(StartOutcome::FreshCreated)));
    assert!(!done.contains(&StartAction::AskSnapshot) && !done.contains(&StartAction::CreateSnapshot));
    let (_, o) = run_start(&settings(true), &[StartAction::AskDocker]);
    assert_eq!(o.unwrap_err(), "Docker is not accessible. Please start Docker first.");
}

#[test]
fn trouble_with_snapshots_is_not_fatal() {
    let bad = [
        StartAction::AskRunning,
        StartAction::AskExists,
        StartAction::AskSnapshot,
        StartAction::CreateSnapshot,
        StartAction::CleanUpSnapshots,
    ];
    let (_, o) = run_start(&settings(true), &bad);
    assert!(matches!(o, Ok(StartOutcome::FreshCreated)));
}

#[test]
fn a_creation_takes_all_actions() {
    let s = settings(true);
    let mut step = begin_create();
    let mut done = Vec::new();
    loop {
        match step.next {
            Next::Go(a) => {
                done.push(a);
                let ev = match a {
                    CreateAction::Configure => CreateEvent::Installed(Ok(()), Ok(()), Err(trouble())),
                    _ => CreateEvent::Came(Event::Done),
                };
                step = create_cluster(a, ev, &s, "img");
            }
            Next::Done(()) => break,
            Next::Fail(e) => panic!("{}", e),
        }
    }
    assert!(done.contains(&CreateAction::RunContainer));
    assert!(done.contains(&CreateAction::AwaitReady));
    assert!(done.contains(&CreateAction::RunHooks));
    // Only the agent may be missing.
    let configured = |socat, access, agent| {
        create_cluster(CreateAction::Configure, CreateEvent::Installed(socat, access, agent), &s, "img")
    };
    assert!(matches!(
        create_cluster(CreateAction::Configure, CreateEvent::Came(Event::Done), &s, "img").next,
        Next::Go(CreateAction::Configure)
    ));
    let broken = configured(Err(trouble()), Ok(()), Ok(()));
    assert_eq!(texts(&broken)[0], "Socat install failed: e: c");
    match broken.next {
        Next::Fail(e) => assert_eq!(e, "e"),
        n => panic!("{:?}", n),
    }
    assert!(matches!(configured(Ok(()), Err("e".to_string()), Ok(())).next, Next::Fail(_)));
    let missing = configured(Ok(()), Ok(()), Err(trouble()));
    assert_eq!(texts(&missing)[0], "Agent install failed (stats will use fallback): e: c");
}

#[test]
fn deep_snapshots_skip_the_wait() {
    for deep in [true, false] {
        let s = settings(true);
        let mut step = begin_restore("img", deep);
        let mut waited = false;
        loop {
            match step.next {
                Next::Go(a) => {
                    waited = waited || a == RestoreAction::AwaitReady;
                    step = start_from_snapshot(a, &Event::Done, &s, deep);
                }
                Next::Done(()) => break,
                Next::Fail(e) => panic!("{}", e),
            }
        }
        assert_eq!(waited, !deep);
    }
}

#[test]
fn clusters_are_stopped_and_deleted() {
    assert!(matches!(begin_stop().next, Next::Go(StopAction::AskExists)));
    assert_eq!(texts(&stop(StopAction::AskExists, &Event::No)), strings(&["Cluster is not running"]));
    assert_eq!(texts(&stop(StopAction::StopContainer, &Event::Done)), strings(&["K3s cluster stopped"]));
    assert!(matches!(begin_delete().next, Next::Go(DeleteAction::AskExists)));
    // Whatever the container says, the rest is cleaned up.
    assert!(matches!(delete(DeleteAction::AskExists, &Event::No).next, Next::Go(DeleteAction::CleanUp)));
    assert!(matches!(cleaned_up(&vec![Ok(()), Ok(())]).next, Next::Done(())));
    match cleaned_up(&vec![Ok(()), Err("b".to_string()), Err("c".to_string())]).next {
        Next::Fail(e) => assert_eq!(e, "b"),
        n => panic!("{:?}", n),
    }
}

#[test]
fn containers_are_launched() {
    let c = config();
    let f = HostFacts {
        docker_root: "/d".to_string(),
        socket_source: "/var/run/docker.sock".to_string(),
        tcp_url: None,
        iptables_mode: "nft".to_string(),
        macos: false,
        relay_port: 0,
    };
    let r = container_to_create(&c, &f);
    assert_eq!(r.image, "rancher/k3s:v1.33.0+k3s1");
    for p in [(80, 80), (443, 443), (6443, 6443), (2345, 2345)] {
        assert!(r.ports.contains(&p), "{:?}", p);
    }
    assert!(r.env.contains(&("IPTABLES_MODE".to_string(), "nft".to_string())));
    assert_eq!(local_pv_storage_path("/d"), "/d/volumes/k3s-local-pv-data/_data");
    assert_eq!(kubelet_root_dir("/d"), "/d/kubelet");
    let r = container_to_restore(&c, "snap", "/s");
    assert_eq!(r.image, "snap");
    assert!(!settings_of(&c).has_hooks);
    let hooked = c.with_hooks(HooksConfig {
        on_cluster_available: vec![HookEntry { name: "a".to_string(), command: "b".to_string() }],
        on_services_deployed: vec![],
    });
    assert!(settings_of(&hooked).has_hooks);
}

#[test]
fn snapshots_are_named_after_the_state() {
    let c = config();
    let digest: String = sha2::Sha256::digest(state_description(&c).as_bytes())
        .iter()
        .map(|b| format!("{:02x}", b))
        .collect();
    let hash = calculate_config_hash(&c);
    assert_eq!(hash.len(), 8);
    assert_eq!(hash, digest[..8]);
    assert_eq!(mark_of(&digest), hash);
    assert_eq!(sanitize_version("v1.33.4-k3s1"), "v1-33-4-k3s1");
    assert_eq!(sanitize_version("v1.33.4+k3s1"), "v1-33-4-k3s1");
    assert_eq!(sanitize_version("V2_a/b:é9"), "V2-a-b--9");
    assert_eq!(
        compute_snapshot_image_name(&c),
        format!("k3dev-snapshot-{}-{}", sanitize_version("v1.33.0+k3s1"), hash)
    );
    assert_eq!(name_snapshot("v1", "0123"), "k3dev-snapshot-v1-0123");
    // The name depends on what is in the snapshot, not on how the cluster is reached.
    let other = config().with_k8s_config(Some("/k".to_string()), None);
    assert_eq!(compute_snapshot_image_name(&other), compute_snapshot_image_name(&c));
}

#[test]
fn deep_snapshots_are_recognised() {
    assert!(is_deep_snapshot(&snapshot_labels(&config(), "now", true)));
    assert!(!is_deep_snapshot(&snapshot_labels(&config(), "now", false)));
    assert!(snapshot_copy_command().starts_with("mkdir -p /snapshot-data"));
}

#[test]
fn unsaved_state_is_not_committed() {
    assert!(matches!(begin_snapshot("i", false).next, Next::Go(SnapshotAction::SaveState)));
    let step = create_snapshot(SnapshotAction::SaveState, &failed(), "i", false);
    assert!(!matches!(step.next, Next::Go(SnapshotAction::Commit)));
    let step = create_snapshot(SnapshotAction::Commit, &Event::Done, "i", true);
    assert_eq!(texts(&step), strings(&["Deep snapshot created: i"]));
}

#[test]
fn old_snapshots_are_removed() {
    let all = strings(&["k3dev-snapshot-a", "k3dev-snapshot-b"]);
    assert_eq!(cleanup_old_snapshots(&all, "k3dev-snapshot-b"), strings(&["k3dev-snapshot-a"]));
    assert!(cleanup_report(0).is_none());
    assert_eq!(cleanup_report(2).unwrap().text, "Cleaned up 2 old snapshot(s)");
    assert!(delete_snapshots(&vec![]).is_none());
    assert!(delete_snapshots(&all).is_some());
    assert_eq!(delete_report(2).unwrap().text, "Removed 2 snapshot image(s)");
}

#[test]
fn the_api_is_waited_for() {
    let (mut w, line) = ApiWait::begin();
    assert_eq!(line.text, "Waiting for k3s API...");
    let mut pauses = 0;
    let mut last = 0;
    let mut asked = 0;
    loop {
        asked += 1;
        match w.wait_for_api(None, 0, 0).0 {
            ApiNext::Retry(ms, v) => {
                assert!(ms >= last);
                last = ms;
                pauses += ms;
                w = v;
            }
            ApiNext::GiveUp(ms) => {
                pauses += ms;
                break;
            }
            ApiNext::Up => panic!("up"),
        }
    }
    assert_eq!(asked, 40);
    assert_eq!(pauses, 73100);
    assert!(matches!(ApiWait::new().wait_for_api(Some(200), 0, 0).0, ApiNext::Up));
    assert!(matches!(ApiWait::new().wait_for_api(Some(401), 0, 0).0, ApiNext::Up));
    assert_eq!(api_url(&None), "https://127.0.0.1:6443/healthz");
}

#[test]
fn programs_are_installed() {
    assert!(matches!(
        install_binary_via_docker_cp(InstallAction::CopyFile, &Event::No, "socat", "denied").next,
        Next::Go(InstallAction::RemoveFile(false))
    ));
    match install_binary_via_docker_cp(InstallAction::RemoveFile(false), &Event::Done, "socat", "denied").next {
        Next::Fail(e) => assert_eq!(e, "docker cp socat failed: denied"),
        n => panic!("{:?}", n),
    }
    assert_eq!(temporary_name("socat"), "k3dev-socat");
    assert_eq!(place_in_container("c", "/x"), "c:/x");
    assert_eq!(ask_presence(Tool::Socat), strings(&["which", "socat"]));
    assert_eq!(path_of_tool(Tool::Agent), "/usr/local/bin/k3dev-agent");
    assert!(matches!(install_tool(Tool::Socat, ToolAction::AskPresent, &Event::Yes), ToolNext::Done));
    match install_tool(Tool::Agent, ToolAction::Install, &failed()) {
        ToolNext::Fail(t) => {
            assert_eq!(t.message, "Failed to install k3dev-agent");
            assert_eq!(t.told_in_full(), "Failed to install k3dev-agent: x");
        }
        n => panic!("{:?}", n),
    }
}

#[test]
fn access_is_set_up() {
    assert!(access_is_complete("clusters:\n- x"));
    assert!(!access_is_complete(""));
    assert_eq!(
        fix_access("server: https://127.0.0.1:6443".to_string(), &Some("10.0.0.2".to_string())),
        "server: https://10.0.0.2:6443"
    );
    assert!(matches!(
        setup_kubeconfig(AccessAction::FindHome, &Event::No).next,
        Next::Fail(_)
    ));
    let mut a = AccessAction::Read(0);
    let mut reads = 0;
    loop {
        if let AccessAction::Read(_) = a {
            reads += 1;
        }
        assert!(reads <= 30);
        match setup_kubeconfig(a, &Event::No).next {
            Next::Go(b) => a = b,
            Next::Fail(e) => {
                assert_eq!(e, "Timeout waiting for kubeconfig");
                break;
            }
            Next::Done(()) => panic!("done"),
        }
    }
    assert_eq!(reads, 30);
}

#[test]
fn components_are_waited_for() {
    assert_eq!(begin_cluster_ready().len(), 3);
    assert_eq!(await_deployment("x").text, "Waiting for x...");
    assert!(wait_for_deployment("x", 60, Some(true)).is_none());
    assert_eq!(
        wait_for_deployment("x", 60, Some(false)).unwrap().text,
        "x not ready after 60s, continuing..."
    );
    assert!(wait_for_cluster_ready(Some(true), Some(true)).len() <= 1);
    assert!(!wait_for_cluster_ready(Some(false), Some(true)).is_empty());
}

#[test]
fn trouble_with_the_provisioner_is_not_fatal() {
    assert_eq!(
        provisioner_config("/pv"),
        r#"{"nodePathMap":[{"node":"DEFAULT_PATH_FOR_NON_LISTED_NODES","paths":["/pv"]}]}"#
    );
    let mut a = begin_provisioner();
    let mut said = Vec::new();
    let mut secs = 0;
    loop {
        secs += pause_before(a);
        let step = configure_local_path_provisioner(a, &failed(), &None, "/pv");
        said.extend(texts(&step));
        match step.next {
            Next::Go(b) => a = b,
            Next::Done(()) => break,
            Next::Fail(e) => panic!("{}", e),
        }
    }
    assert_eq!(secs, 2);
    assert_eq!(said.len(), 3);
    assert_eq!(said[0], "ConfigMap patch attempt 1 failed, retrying...");
    assert_eq!(
        said[2],
        "Failed to configure local-path-provisioner after 3 attempts: x. PVCs may not work correctly."
    );
    let step = configure_local_path_provisioner(
        ProvisionerAction::ReadBack,
        &Event::Done,
        &Some("{\"/pv\"}".to_string()),
        "/pv",
    );
    assert!(matches!(step.next, Next::Go(ProvisionerAction::Restart)));
    let step = configure_local_path_provisioner(
        ProvisionerAction::ReadBack,
        &Event::Done,
        &Some("reverted".to_string()),
        "/pv",
    );
    assert!(matches!(step.next, Next::Go(ProvisionerAction::PatchAgain)));
}

#[test]
fn the_cluster_is_described() {
    let facts = ClusterFacts {
        version: Some("Server Version: v1.33".to_string()),
        nodes: vec![],
        namespaces: strings(&["default"]),
        system_pods: vec![],
    };
    let lines = describe_cluster(ClusterStatus::Running, &facts);
    assert_eq!(lines[0].text, "=== K3s Cluster Info ===");
    assert_eq!(lines[1].text, "Status: Running");
    assert!(lines.iter().any(|l| l.text == "  default"));
    assert_eq!(describe_cluster(ClusterStatus::Stopped, &facts).len(), 2);
}

#[test]
fn trouble_with_hosts_is_not_fatal() {
    let s = ServiceSettings { deploy_traefik: true, auto_update_hosts: true, has_hooks: false };
    let step = manager::start(ServiceAction::UpdateHosts, &failed(), &s);
    assert!(!matches!(step.next, Next::Fail(_)));
    assert_eq!(
        texts(&step)[0],
        "Could not update /etc/hosts (use 'H' key for manual update): x"
    );
    assert!(matches!(
        manager::start(ServiceAction::StartCluster, &failed(), &s).next,
        Next::Fail(_)
    ));
    assert!(matches!(
        manager::restart(RestartAction::Stop, &Event::Done).next,
        Next::Go(RestartAction::Pause(2))
    ));
    assert!(matches!(
        manager::delete(RemoveAction::UninstallTraefik, &Event::Done, true).next,
        Next::Go(RemoveAction::DeleteCluster)
    ));
    assert!(matches!(
        manager::delete(RemoveAction::UninstallTraefik, &failed(), true).next,
        Next::Fail(_)
    ));
    assert_eq!(manager::get_status(None), ClusterStatus::RuntimeNotRunning);
    assert_eq!(describe_platform("x86_64", &strings(&["a", "b"])).last().unwrap().text, "Missing: a, b");
}
