use k3dev::app::commands::{
    calculate_shell_dimensions, command_in_directory, confirmation_text, fill, fill_exec,
    find_command_by_path, get_exec_placeholders, host_command_result, prompt_of, ActionStart, Activation, Area, Click,
    CommandEntry, Dispatch, ExecSpec, ExecutionTarget, PaletteCommand, PaletteStart, ScreenLayout,
    Selection,
};
use k3dev::app::events::{
    AppMode, ClusterAction, FocusArea, InputState, Key, KeyAction, KeyEffect, KeyPress,
};
use k3dev::app::highlight::{
    collect_targets_recursive, compute_highlighted_pods, kubernetes_target_owned, matches_target,
    MenuLine, PodRef, SelectedLine,
};
use k3dev::app::messages::{AppMessage, AppState, MessageEffect};
use k3dev::app::panel::{shell_resized, DetailTab, Panel, PanelEffect, ShellStart, TabLoad};
use k3dev::app::pods::{
    has_unknown_arch, is_arch_mismatch, is_pulling, merge_pods, pod_key, PendingContainer,
    PendingPod, PodState, RunningPod,
};
use k3dev::app::refresh::{
    checks_of, container_name_for, info_block_timeout, merge_volumes, plan_check,
    visibility_timeout, Check, CheckPlan, PvcMetadata, RefreshTask, Repeated, Tick,
};
use k3dev::app::session::{
    announce_copy, cluster_title, copy_command, label_command, load_detail, load_failed, open_url,
    report_copy, run_docker_command, run_interactive_sudo_hosts_update, shown_cluster_name,
    startup_warnings, trigger_manual_hosts_update, Loading, SudoAction,
};
use k3dev::cluster::config::{ClusterConfig, InfrastructureConfig, SpeedupConfig};
use k3dev::cluster::docker::pull_progress::{PullFigures, PullPhase};
use k3dev::cluster::docker::volumes::VolumeStats;
use k3dev::cluster::ingress::HostsUpdateResult;
use k3dev::cluster::k3s::status::ClusterStatus;
use k3dev::machine::{Event, Next};
use k3dev::output::OutputType;
use k3dev::textmap::TextMap;

fn strings(v: &[&str]) -> Vec<String> {
    v.iter().map(|s| s.to_string()).collect()
}

fn pair(a: &str, b: &str) -> (String, String) {
    (a.to_string(), b.to_string())
}

fn config() -> ClusterConfig {
    ClusterConfig::from(InfrastructureConfig {
        k3s_version: "v1.33.0-k3s1".to_string(),
        domain: "k3s.local".to_string(),
        container_name: "k3dev-k3s".to_string(),
        network_name: "k3dev".to_string(),
        api_port: 6443,
        http_port: 80,
        https_port: 443,
        additional_ports: vec![],
        speedup: SpeedupConfig { use_snapshot: true, snapshot_auto_cleanup: true },
    })
}

fn press(code: Key, action: KeyAction) -> KeyPress {
    KeyPress {
        code,
        control: false,
        action,
        palette_selection: false,
        context_selection: false,
        context_shortcut: false,
        submit_focused: false,
        pod_list_height: None,
    }
}

#[test]
fn focus_cycles() {
    let mut s = InputState::new();
    let first = s.focus;
    let mut seen = vec![s.focus];
    for _ in 0..2 {
        s.cycle_focus();
        assert!(!seen.contains(&s.focus));
        seen.push(s.focus);
    }
    s.cycle_focus();
    assert!(s.focus == first);
}

#[test]
fn a_busy_program_ignores_keys() {
    let mut s = InputState::new();
    s.is_executing = true;
    let before = format!("{:?}", s);
    s.handle_key(&press(Key::Char('r'), KeyAction::Refresh));
    assert_eq!(format!("{:?}", s), before);
}

#[test]
fn escape_closes_dialogs() {
    for mode in [AppMode::Help, AppMode::CommandPalette, AppMode::OutputPopup, AppMode::ConfirmDestroy] {
        let mut s = InputState::new();
        s.mode = mode;
        s.handle_key(&press(Key::Esc, KeyAction::Unbound));
        assert!(s.mode == AppMode::Normal, "{:?}", mode);
        assert!(!s.should_quit);
    }
}

#[test]
fn only_confirmed_actions_run() {
    let mut s = InputState::new();
    assert!(matches!(
        s.execute_cluster_action(ClusterAction::Destroy),
        ActionStart::ConfirmDestroy
    ));
    assert!(s.mode == AppMode::ConfirmDestroy);
    assert!(confirmation_text(ActionStart::ConfirmDestroy).is_some());
    assert!(confirmation_text(ActionStart::Run(ClusterAction::Start)).is_none());
    let effects = s.handle_key(&press(Key::Char('y'), KeyAction::Unbound));
    assert!(effects
        .iter()
        .any(|e| matches!(e, KeyEffect::RunClusterAction(ClusterAction::Destroy))));
    let mut s = InputState::new();
    s.execute_cluster_action(ClusterAction::Destroy);
    let effects = s.handle_key(&press(Key::Char('n'), KeyAction::Unbound));
    assert!(!effects.iter().any(|e| matches!(e, KeyEffect::RunClusterAction(_))));
    assert!(s.mode == AppMode::Normal);
    assert!(matches!(
        InputState::new().execute_cluster_action(ClusterAction::Start),
        ActionStart::Run(ClusterAction::Start)
    ));
    assert!(matches!(
        InputState::new().execute_cluster_action(ClusterAction::Diagnostics),
        ActionStart::Diagnostics
    ));
}

#[test]
fn cancelling_spares_the_program() {
    let mut s = InputState::new();
    s.is_executing = true;
    s.cancellable = true;
    s.mode = AppMode::OutputPopup;
    let mut k = press(Key::Char('c'), KeyAction::Unbound);
    k.control = true;
    s.handle_key(&k);
    assert!(!s.should_quit);
    let mut idle = InputState::new();
    idle.handle_key(&press(Key::Char('q'), KeyAction::Quit));
    assert!(idle.should_quit);
}

#[test]
fn counts_repeat_movements() {
    let mut s = InputState::new();
    s.focus = FocusArea::Content;
    s.handle_key(&press(Key::Char('4'), KeyAction::Unbound));
    s.handle_key(&press(Key::Char('2'), KeyAction::Unbound));
    assert_eq!(s.pending_count, "42");
    let effects = s.handle_key(&press(Key::Char('j'), KeyAction::MoveDown));
    assert!(effects.iter().any(|e| matches!(e, KeyEffect::MenuDown(42))));
    assert_eq!(s.pending_count, "");
}

#[test]
fn every_digit_starts_a_count() {
    for n in 1..=9usize {
        let digit = char::from_digit(n as u32, 10).unwrap();
        for (focus, wanted) in [(FocusArea::Content, 0), (FocusArea::PodStats, 1)] {
            let mut s = InputState::new();
            s.focus = focus;
            s.handle_key(&press(Key::Char(digit), KeyAction::Unbound));
            assert!(s.focus == focus);
            let effects = s.handle_key(&press(Key::Char('j'), KeyAction::MoveDown));
            assert_eq!(effects.len(), 2);
            assert!(match effects[1] {
                KeyEffect::MenuDown(k) => wanted == 0 && k == n,
                KeyEffect::PodsDown(k, _) => wanted == 1 && k == n,
                _ => false,
            });
            assert!(s.focus == focus);
            assert_eq!(s.pending_count, "");
        }
    }
}

#[test]
fn a_digit_without_a_move_picks_an_area() {
    for (digit, area) in
        [('1', FocusArea::Content), ('2', FocusArea::PodStats), ('3', FocusArea::ActionBar)]
    {
        let mut s = InputState::new();
        s.handle_key(&press(Key::Char(digit), KeyAction::Unbound));
        assert!(s.focus == FocusArea::Content);
        s.handle_key(&press(Key::Enter, KeyAction::Execute));
        assert!(s.focus == area);
        assert_eq!(s.pending_count, "");
    }
    let mut s = InputState::new();
    s.handle_key(&press(Key::Char('1'), KeyAction::Unbound));
    s.handle_key(&press(Key::Char('2'), KeyAction::Unbound));
    s.handle_key(&press(Key::Enter, KeyAction::Execute));
    assert!(s.focus == FocusArea::Content);
}

fn entry(name: &str, execution: Option<ExecSpec>, commands: Vec<CommandEntry>) -> CommandEntry {
    CommandEntry { name: name.to_string(), execution, commands }
}

fn spec(target: ExecutionTarget) -> ExecSpec {
    ExecSpec {
        target,
        workdir: "/w".to_string(),
        cmd: "run @name".to_string(),
        input: vec![pair("name", "Name?")],
    }
}

fn kube(selector: &str, pod: &str) -> ExecutionTarget {
    ExecutionTarget::Kubernetes {
        namespace: "default".to_string(),
        selector: selector.to_string(),
        pod_name: pod.to_string(),
        container: "c".to_string(),
    }
}

#[test]
fn commands_are_found_by_path_in_any_case() {
    let groups = vec![entry("Tools", None, vec![entry("Build All", Some(spec(ExecutionTarget::Host)), vec![])])];
    for path in ["tools/build all", "TOOLS/Build ALL", "Tools/Build All"] {
        assert_eq!(find_command_by_path(&groups, path).map(|c| c.name.as_str()), Some("Build All"), "{}", path);
    }
    assert!(find_command_by_path(&groups, "tools/missing").is_none());
}

#[test]
fn placeholders_are_filled_in() {
    let values = vec![pair("name", "x y")];
    let e = fill_exec(&spec(ExecutionTarget::Host), &values);
    assert_eq!(e.cmd, fill("run @name", &values));
    assert!(e.cmd.contains("x y"));
    assert_eq!(prompt_of(&vec![pair("name", "Name?")], "name"), "Name?");
    assert_eq!(command_in_directory("/w", "ls"), "cd /w && ls");
    assert_eq!(command_in_directory("", "ls"), "ls");
    assert_eq!(host_command_result(Some(0)), Ok(()));
    assert!(host_command_result(Some(2)).is_err());
    assert!(host_command_result(None).is_err());
}

#[test]
fn commands_are_dispatched() {
    let mut s = InputState::new();
    match s.dispatch_command(&entry("Build", Some(spec(ExecutionTarget::Host)), vec![]), true) {
        Dispatch::Host { title } => assert_eq!(title, "Host: Build"),
        d => panic!("{:?}", d),
    }
    let docker = ExecutionTarget::Docker { container: "db".to_string() };
    match s.dispatch_command(&entry("Dump", Some(spec(docker)), vec![]), true) {
        Dispatch::Docker { container, title } => {
            assert_eq!((container.as_str(), title.as_str()), ("db", "Docker [db]: Dump"));
        }
        d => panic!("{:?}", d),
    }
    match s.dispatch_command(&entry("Sh", Some(spec(kube("", "web"))), vec![]), true) {
        Dispatch::Pod { selector, pod_name, .. } => {
            assert_eq!((selector, pod_name), (None, Some("web".to_string())));
        }
        d => panic!("{:?}", d),
    }
    assert!(matches!(
        s.dispatch_command(&entry("Sh", Some(spec(kube("", "web"))), vec![]), false),
        Dispatch::NotConnected
    ));
    assert!(matches!(s.dispatch_command(&entry("Group", None, vec![]), true), Dispatch::Nothing));
    let mut s = InputState::new();
    assert!(matches!(
        s.execute_command(&entry("Build", Some(plain(ExecutionTarget::Host)), vec![]), true),
        Dispatch::Host { .. }
    ));
    assert!(matches!(s.execute_command(&entry("Group", None, vec![]), true), Dispatch::Nothing));
}

fn plain(target: ExecutionTarget) -> ExecSpec {
    ExecSpec { target, workdir: String::new(), cmd: "ls".to_string(), input: vec![] }
}

#[test]
fn commands_with_placeholders_are_asked_about_and_filled() {
    let shell = ExecSpec {
        target: ExecutionTarget::Kubernetes {
            namespace: "@ns".to_string(),
            selector: "@app".to_string(),
            pod_name: String::new(),
            container: String::new(),
        },
        workdir: "/srv/@ns".to_string(),
        cmd: "/bin/sh -c @cmd_1".to_string(),
        input: vec![pair("ns", "Namespace?")],
    };
    assert_eq!(get_exec_placeholders(&shell), strings(&["ns", "app", "cmd_1"]));
    let cmd = entry("Shell", Some(shell), vec![entry("child", None, vec![])]);
    let mut s = InputState::new();
    match s.execute_command(&cmd, true) {
        Dispatch::Ask { fields } => assert_eq!(
            fields,
            vec![pair("ns", "Namespace?"), pair("app", "Enter app:"), pair("cmd_1", "Enter cmd_1:")]
        ),
        d => panic!("{:?}", d),
    }
    assert!(s.mode == AppMode::Input && s.pending_command);
    let values = vec![pair("ns", "default"), pair("app", "app=myapp"), pair("cmd_1", "ls")];
    let (filled, d) = s.submit_input(&cmd, &values, true).unwrap();
    match d {
        Dispatch::Pod { namespace, selector, pod_name, container } => {
            assert_eq!((namespace.as_str(), selector), ("default", Some("app=myapp".to_string())));
            assert_eq!((pod_name, container.as_str()), (None, ""));
        }
        d => panic!("{:?}", d),
    }
    assert_eq!((filled.name.as_str(), filled.commands.len()), ("Shell", 1));
    let e = filled.execution.unwrap();
    assert_eq!((e.workdir.as_str(), e.cmd.as_str()), ("/srv/default", "/bin/sh -c ls"));
    assert!(s.mode == AppMode::Normal && !s.pending_command);
    assert!(s.submit_input(&cmd, &values, true).is_none());
    let docker = ExecutionTarget::Docker { container: "@db".to_string() };
    let cmd = entry("Dump", Some(plain(docker)), vec![]);
    assert!(matches!(s.execute_command(&cmd, false), Dispatch::Ask { .. }));
    match s.submit_input(&cmd, &vec![pair("db", "pg")], false) {
        Some((_, Dispatch::Docker { container, title })) => {
            assert_eq!((container.as_str(), title.as_str()), ("pg", "Docker [pg]: Dump"));
        }
        d => panic!("{:?}", d),
    }
    assert!(s.mode == AppMode::OutputPopup && s.is_executing);
}

#[test]
fn names_of_placeholders_follow_at_signs() {
    let names = |cmd: &str| {
        let e = ExecSpec { cmd: cmd.to_string(), ..plain(ExecutionTarget::Host) };
        get_exec_placeholders(&e)
    };
    assert_eq!(names("a @b-c @@d @ @b x@"), strings(&["b", "d"]));
    assert!(names("nothing").is_empty());
}

#[test]
fn the_palette_runs_commands() {
    let mut s = InputState::new();
    assert!(matches!(s.execute_palette_command(PaletteCommand::AppQuit), PaletteStart::Nothing));
    assert!(s.should_quit);
    let mut s = InputState::new();
    assert!(matches!(s.execute_palette_command(PaletteCommand::AppRefresh), PaletteStart::Refresh));
    assert!(matches!(
        s.execute_palette_command(PaletteCommand::Custom("a/b".to_string())),
        PaletteStart::Custom(_)
    ));
}

#[test]
fn enter_and_clicks_act_on_the_selection() {
    let mut s = InputState::new();
    s.focus = FocusArea::ActionBar;
    let none = Selection { action: None, ingress_url: None, item: None, pod_selected: false };
    assert!(matches!(s.handle_enter(&none), Activation::Nothing));
    let start = Selection { action: Some(ClusterAction::Start), ..none };
    assert!(matches!(
        s.handle_enter(&start),
        Activation::Cluster(ActionStart::Run(ClusterAction::Start))
    ));
    let area = |x, y, width, height| Area { x, y, width, height };
    let layout = ScreenLayout {
        action_bar: area(0, 0, 80, 3),
        menu: area(0, 3, 30, 20),
        pod_stats: area(30, 3, 50, 20),
    };
    let (rows, cols) = calculate_shell_dimensions(&Some(layout.clone()));
    assert!(rows <= 20 && cols <= 50);
    let mut s = InputState::new();
    assert!(matches!(s.handle_mouse(&Some(layout), true, 5, 6), Click::Menu(_)));
    assert!(s.focus == FocusArea::Content);
    assert!(matches!(s.handle_mouse(&None, true, 5, 6), Click::Nothing));
}

fn pod_ref(name: &str, ns: &str) -> PodRef {
    PodRef { name: name.to_string(), namespace: ns.to_string() }
}

#[test]
fn pods_of_commands_are_highlighted() {
    let t = kubernetes_target_owned(&kube("", "web")).unwrap();
    assert!(matches_target(&t, "web", "default"));
    assert!(!matches_target(&t, "web", "other"));
    assert!(kubernetes_target_owned(&ExecutionTarget::Host).is_none());
    let mut all = Vec::new();
    collect_targets_recursive(
        &vec![entry("g", None, vec![entry("c", Some(spec(kube("", "web"))), vec![])])],
        &mut all,
    );
    assert_eq!(all.len(), 1);
    let lines = vec![MenuLine { level: 1, command: Some(entry("c", Some(spec(kube("", "web"))), vec![])) }];
    let selected = Some(SelectedLine { index: 0, has_children: false, group: None });
    let pods = vec![pod_ref("web", "default"), pod_ref("web", "other"), pod_ref("db", "default")];
    assert_eq!(compute_highlighted_pods(&lines, &selected, &pods), strings(&["web"]));
    assert!(compute_highlighted_pods(&lines, &None, &pods).is_empty());
}

fn figures(done: u64, total: u64) -> PullFigures {
    PullFigures {
        total_bytes: total,
        downloaded_bytes: done,
        tracking_available: total > 0,
        phase: PullPhase::Downloading,
        layers_done: 0,
        layers_total: 1,
    }
}

fn pending(name: &str, image: &str, reason: &str) -> PendingPod {
    PendingPod {
        name: name.to_string(),
        namespace: "default".to_string(),
        containers: vec![PendingContainer {
            name: "c".to_string(),
            image: image.to_string(),
            reason: reason.to_string(),
        }],
        started_at: None,
    }
}

fn running(name: &str) -> RunningPod {
    RunningPod {
        name: name.to_string(),
        namespace: "default".to_string(),
        status: "Running".to_string(),
    }
}

#[test]
fn running_and_pending_pods_are_merged() {
    assert!(is_pulling("ContainerCreating"));
    assert_eq!(pod_key("ns", "p"), "ns/p");
    let mut arch = TextMap::new();
    arch.insert("default/a".to_string(), "arm64".to_string());
    assert!(is_arch_mismatch(&arch, "amd64", "default", "a"));
    assert!(!is_arch_mismatch(&arch, "amd64", "default", "b"));
    assert!(has_unknown_arch(&vec![running("b")], &arch));
    let mut progress = TextMap::new();
    progress.insert("img".to_string(), figures(5, 10));
    let v = merge_pods(
        &vec![running("b"), running("a")],
        &vec![pending("c", "img", "ContainerCreating"), pending("d", "x", "CrashLoopBackOff")],
        &progress,
        &arch,
        "amd64",
    );
    assert_eq!(v.len(), 4);
    let find = |n: &str| v.iter().find(|p| p.name == n).unwrap();
    assert!(find("a").arch_mismatch);
    match &find("c").state {
        PodState::Pulling { containers, .. } => assert_eq!(containers[0].downloaded_bytes, 5),
        s => panic!("{:?}", s),
    }
    assert!(!matches!(find("d").state, PodState::Running));
}

#[test]
fn messages_change_the_state() {
    let c = config();
    let mut s = AppState::new();
    s.handle_message(AppMessage::PullProgressUpdated(vec![("img".to_string(), figures(5, 10))]), &c, "amd64");
    s.handle_message(AppMessage::PullProgressUpdated(vec![("img".to_string(), figures(3, 8))]), &c, "amd64");
    let p = s.progress.get("img").unwrap();
    assert_eq!((p.downloaded_bytes, p.total_bytes), (5, 10));
    // A pull of no pending pod is dropped.
    s.handle_message(AppMessage::PendingPodsUpdated(vec![]), &c, "amd64");
    assert!(s.progress.get("img").is_none());
    s.handle_message(AppMessage::ClusterStatusUpdate(ClusterStatus::Running), &c, "amd64");
    assert_eq!(s.cluster_status, ClusterStatus::Running);
    let fx = s.handle_message(AppMessage::Error("boom".to_string()), &c, "amd64");
    assert!(fx.iter().any(|e| matches!(e, MessageEffect::Output(OutputType::Error, t) if t.contains("boom"))));
    s.handle_message(AppMessage::NeedsSudoHostsWrite("c".to_string(), 2), &c, "amd64");
    assert_eq!(s.pending_sudo_hosts, Some(("c".to_string(), 2)));
    s.handle_message(AppMessage::PodStatsUpdated(vec![running("a")]), &c, "amd64");
    assert_eq!(s.pods.len(), 1);
}

#[test]
fn new_pulls_are_watched_once() {
    let c = config();
    let mut s = AppState::new();
    s.handle_message(
        AppMessage::PendingPodsUpdated(vec![pending("c", "img", "ContainerCreating")]),
        &c,
        "amd64",
    );
    let first = s.watch_new_pulls();
    assert_eq!(s.monitors[first..].to_vec(), strings(&["img"]));
    let again = s.watch_new_pulls();
    assert_eq!(again, s.monitors.len());
    assert_eq!(container_name_for(&s.pending, "img"), "c");
}

#[test]
fn the_panel_follows_the_selection() {
    let mut p = Panel::new(true);
    let fx = p.open_or_switch_detail_tab(DetailTab::Logs, Some(pod_ref("a", "n")));
    assert!(fx.iter().any(|e| matches!(e, PanelEffect::Open)));
    assert!(matches!(p.load_active_tab(), TabLoad::Logs));
    let (fx, _) = p.ensure_detail_panel_synced(None, AppMode::Normal);
    assert!(fx.iter().any(|e| matches!(e, PanelEffect::Close)));
    assert!(p.shown.is_none());
    p.open_or_switch_detail_tab(DetailTab::Shell, Some(pod_ref("a", "n")));
    assert!(matches!(p.activate_shell_tab(false), ShellStart::Spawn { close_old: false }));
    assert!(shell_resized(10, 20, (0, 0)));
    assert!(!shell_resized(10, 20, (10, 20)));
    assert!(!shell_resized(0, 20, (10, 20)));
}

#[test]
fn checks_are_planned() {
    assert_eq!(checks_of(RefreshTask::IngressRefresh, false).len(), 3);
    assert!(checks_of(RefreshTask::StatsRefresh, true).iter().any(|c| matches!(c, Check::Logs)));
    assert!(!checks_of(RefreshTask::StatsRefresh, false).iter().any(|c| matches!(c, Check::Logs)));
    assert!(matches!(
        plan_check(Check::PodStats, ClusterStatus::Running, true, true),
        CheckPlan::Ask
    ));
    let mut r = Repeated { last_run: 0, interval: 100, in_flight: false };
    assert!(matches!(r.visibility_tick(50, false), Tick::Wait));
    assert!(matches!(r.visibility_tick(100, true), Tick::Wait));
    assert!(matches!(r.visibility_tick(100, false), Tick::Run));
    assert!(r.in_flight);
    assert_eq!(visibility_timeout(5_000_000_000), 4_750_000_000);
    assert_eq!(visibility_timeout(0), 1_000_000_000);
    assert_eq!(visibility_timeout(u128::MAX), 30_000_000_000);
    assert!(info_block_timeout(5_000_000_000) > 0);
}

#[test]
fn volumes_are_merged_with_their_claims() {
    let disk = vec![VolumeStats {
        pvc_name: "data".to_string(),
        namespace: "default".to_string(),
        used_bytes: 7,
        pods: strings(&["web"]),
    }];
    let mut meta = TextMap::new();
    meta.insert(
        "default/data".to_string(),
        PvcMetadata {
            name: "data".to_string(),
            namespace: "default".to_string(),
            capacity_bytes: 100,
            phase: "Bound".to_string(),
            storage_class: "local-path".to_string(),
        },
    );
    let v = merge_volumes(&disk, &meta);
    assert_eq!(v.len(), 1);
    assert_eq!((v[0].used_bytes, v[0].capacity_bytes, v[0].phase.as_str()), (Some(7), 100, "Bound"));
    assert_eq!(merge_volumes(&vec![], &meta)[0].used_bytes, None);
}

#[test]
fn sessions_begin() {
    assert_eq!(startup_warnings(&strings(&["a"])), strings(&["Config warning: a"]));
    assert_eq!(shown_cluster_name(&None, "k3dev-k3s"), "k3dev-k3s");
    assert_eq!(shown_cluster_name(&Some("ctx".to_string()), "k3dev-k3s"), "ctx");
    assert_eq!(cluster_title("start"), "Cluster start");
}

#[test]
fn jobs_report() {
    assert_eq!(open_url("u", &Ok(())).text, "Opening: u");
    assert_eq!(open_url("u", &Err("e".to_string())).text, "Failed to open URL: e");
    assert_eq!(load_failed(Loading::Pod, "e"), "Pod not found: e");
    assert_eq!(load_detail(Loading::Logs, &Ok("a\nb\n".to_string())), Ok(strings(&["a", "b"])));
    assert_eq!(
        load_detail(Loading::Timeline, &Err("e".to_string())),
        Err("Failed to load timeline: e".to_string())
    );
    assert_eq!(run_docker_command(&Ok("a\nb".to_string())).unwrap()[1].text, "b");
    assert_eq!(
        run_docker_command(&Err("e".to_string())).unwrap_err(),
        "docker exec failed: e"
    );
    assert_eq!(
        trigger_manual_hosts_update(Err("e".to_string())),
        Err("Failed to update /etc/hosts: e".to_string())
    );
    assert_eq!(
        trigger_manual_hosts_update(Ok(HostsUpdateResult::NeedsSudo {
            content: "c".to_string(),
            count: 3
        })),
        Ok(Some(("c".to_string(), 3)))
    );
    assert_eq!(trigger_manual_hosts_update(Ok(HostsUpdateResult::NoUpdateNeeded)), Ok(None));
}

#[test]
fn the_hosts_file_is_written_with_more_rights() {
    assert_eq!(copy_command(false, "/t", "/etc/hosts"), strings(&["sudo", "cp", "/t", "/etc/hosts"]));
    assert_eq!(copy_command(true, "t", "h"), strings(&["cmd", "/C", "copy", "t", "h"]));
    assert_eq!(label_command("/etc/hosts"), strings(&["sudo", "restorecon", "/etc/hosts"]));
    assert_eq!(announce_copy(2), "\nUpdating /etc/hosts (2 entries)...\n\n");
    assert!(report_copy(true, 2).starts_with("\nUpdated /etc/hosts with 2 entries.\n"));
    assert!(report_copy(false, 2).ends_with("Press Enter to return to k3dev...\n"));
    for (ok, last) in [(true, "Updated /etc/hosts with 2 entries"), (false, "Failed to update /etc/hosts (sudo cancelled or failed)")] {
        let mut a = SudoAction::WriteTemporary;
        let mut reported = false;
        loop {
            let ev = if !ok && matches!(a, SudoAction::Copy) { Event::No } else { Event::Done };
            reported = reported || matches!(a, SudoAction::Report(_));
            let step = run_interactive_sudo_hosts_update(a, &ev, 2, true);
            match step.next {
                Next::Go(b) => a = b,
                Next::Done(()) => {
                    assert_eq!(step.lines[0].text, last);
                    break;
                }
                Next::Fail(e) => panic!("{}", e),
            }
        }
        assert!(reported);
    }
    let step = run_interactive_sudo_hosts_update(SudoAction::WriteTemporary, &Event::No, 2, true);
    assert_eq!(step.lines[0].text, "Failed to write temporary hosts file");
}
