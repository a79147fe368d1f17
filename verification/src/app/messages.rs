//! Messages from background tasks, and what they do to the program.

use vstd::prelude::*;
use crate::app::commands::{command_in_directory, in_directory, non_empty, some_text};
use crate::app::events::{AppMode, FocusArea, InputState};
use crate::app::highlight::PodRef;
use crate::app::panel::{same_pod, DetailTab, Panel};
use crate::app::pods::{
    arch_unknown, has_unknown_arch, is_pulling, means_pulling, merge_pods, merged_pods, stat_views,
    PendingPod, PodStat, RunningPod,
};
use crate::cluster::config::ClusterConfig;
use crate::cluster::docker::pull_progress::{advanced, no_figures, PullFigures};
use crate::cluster::k3s::status::ClusterStatus;
use crate::number::{i64_text, signed_decimal};
use crate::output::OutputType;
use crate::text::{ends, opt_view, same, views};
use crate::textmap::{law_put_then_lookup, lookup, put, without, TextMap};

verus! {

/// A message from a background task. Where nothing but a part of the screen needs the contents
/// of a message, they are not here: [`MessageEffect::Forward`] hands them on.
#[derive(Debug)]
pub enum AppMessage {
    OutputLine(OutputType, String),
    CommandComplete(i32),
    ClusterStatusUpdate(ClusterStatus),
    IngressEntriesLoaded,
    IngressHealthUpdated,
    MissingHostsUpdated,
    ResourceStatsUpdated,
    PodStatsUpdated(Vec<RunningPod>),
    ActivePortForwardsUpdated,
    PendingPodsUpdated(Vec<PendingPod>),
    PullProgressUpdated(Vec<(String, PullFigures)>),
    ImagePullMonitorDone(String),
    DiagnosticsUpdated,
    /// The startup timeline of the pod with this name.
    PodTimelineLoaded(String),
    PodLogsLoaded,
    PodDescribeLoaded,
    /// Bytes for the shell; whether there is a view to show them.
    ShellOutput(bool),
    /// A shell session for a pod.
    ShellSessionReady(PodRef),
    ShellSessionEnded(Option<String>),
    /// A pod was found for a command: container, working directory, command line, and whether
    /// there is a view of a shell.
    ShellCommandPodResolved(PodRef, String, String, String, bool),
    VolumeStatsUpdated,
    /// Whether a client could be made.
    K8sClientReady(bool),
    ImageArchUpdated(Vec<(String, String)>),
    NeedsSudoHostsWrite(String, usize),
    Error(String),
}

/// What a message makes the rest of the program do, in order.
#[derive(Debug)]
pub enum MessageEffect {
    Output(OutputType, String),
    Popup(OutputType, String),
    PopupToBottom,
    ShowExecuting(bool),
    CheckStatus,
    ShowConnection(bool),
    ShowPorts(Vec<(u16, u16)>),
    RefreshIngress,
    CheckIngressHealth,
    CheckMissingHosts,
    CheckPortForwards,
    CheckVolumes,
    ConnectClient,
    /// Restart the timers of ingress, hosts and volumes.
    ResetTimers,
    /// Clear ports, forwards, ingress, hosts, statistics, pods and volumes from the screen.
    ClearCluster,
    /// Hand the contents of the message to the part of the screen that shows them.
    Forward,
    ShowPods,
    CheckArchitectures,
    /// Let the detail panel follow the selected pod.
    SyncPanel,
    OpenPanel,
    SelectPod(usize),
    InitShellView,
    ShellConnected,
    ShellInteractive(bool),
    ShellDisconnected,
    ShellError(String),
    WriteShell(String),
    /// Close the session that the state had.
    CloseSession,
    /// Close the session that the message brought.
    CloseHandle,
    SpawnShell(Option<String>),
}

/// The model of [`MessageEffect`].
pub enum EffectView {
    Output(OutputType, Seq<char>),
    Popup(OutputType, Seq<char>),
    PopupToBottom,
    ShowExecuting(bool),
    CheckStatus,
    ShowConnection(bool),
    ShowPorts(Seq<(u16, u16)>),
    RefreshIngress,
    CheckIngressHealth,
    CheckMissingHosts,
    CheckPortForwards,
    CheckVolumes,
    ConnectClient,
    ResetTimers,
    ClearCluster,
    Forward,
    ShowPods,
    CheckArchitectures,
    SyncPanel,
    OpenPanel,
    SelectPod(usize),
    InitShellView,
    ShellConnected,
    ShellInteractive(bool),
    ShellDisconnected,
    ShellError(Seq<char>),
    WriteShell(Seq<char>),
    CloseSession,
    CloseHandle,
    SpawnShell(Option<Seq<char>>),
}

impl View for MessageEffect {
    type V = EffectView;

    open spec fn view(&self) -> EffectView {
        match *self {
            MessageEffect::Output(k, s) => EffectView::Output(k, s@),
            MessageEffect::Popup(k, s) => EffectView::Popup(k, s@),
            MessageEffect::PopupToBottom => EffectView::PopupToBottom,
            MessageEffect::ShowExecuting(b) => EffectView::ShowExecuting(b),
            MessageEffect::CheckStatus => EffectView::CheckStatus,
            MessageEffect::ShowConnection(b) => EffectView::ShowConnection(b),
            MessageEffect::ShowPorts(v) => EffectView::ShowPorts(v@),
            MessageEffect::RefreshIngress => EffectView::RefreshIngress,
            MessageEffect::CheckIngressHealth => EffectView::CheckIngressHealth,
            MessageEffect::CheckMissingHosts => EffectView::CheckMissingHosts,
            MessageEffect::CheckPortForwards => EffectView::CheckPortForwards,
            MessageEffect::CheckVolumes => EffectView::CheckVolumes,
            MessageEffect::ConnectClient => EffectView::ConnectClient,
            MessageEffect::ResetTimers => EffectView::ResetTimers,
            MessageEffect::ClearCluster => EffectView::ClearCluster,
            MessageEffect::Forward => EffectView::Forward,
            MessageEffect::ShowPods => EffectView::ShowPods,
            MessageEffect::CheckArchitectures => EffectView::CheckArchitectures,
            MessageEffect::SyncPanel => EffectView::SyncPanel,
            MessageEffect::OpenPanel => EffectView::OpenPanel,
            MessageEffect::SelectPod(i) => EffectView::SelectPod(i),
            MessageEffect::InitShellView => EffectView::InitShellView,
            MessageEffect::ShellConnected => EffectView::ShellConnected,
            MessageEffect::ShellInteractive(b) => EffectView::ShellInteractive(b),
            MessageEffect::ShellDisconnected => EffectView::ShellDisconnected,
            MessageEffect::ShellError(s) => EffectView::ShellError(s@),
            MessageEffect::WriteShell(s) => EffectView::WriteShell(s@),
            MessageEffect::CloseSession => EffectView::CloseSession,
            MessageEffect::CloseHandle => EffectView::CloseHandle,
            MessageEffect::SpawnShell(c) => EffectView::SpawnShell(opt_view(c)),
        }
    }
}

/// The models of a list of effects.
pub open spec fn effects(v: Seq<MessageEffect>) -> Seq<EffectView> {
    Seq::new(v.len(), |i: int| v[i]@)
}

/// What the program knows and shows.
#[derive(Debug)]
pub struct AppState {
    pub input: InputState,
    pub panel: Panel,
    pub cluster_status: ClusterStatus,
    pub running: Vec<RunningPod>,
    pub pending: Vec<PendingPod>,
    /// Pulls in progress, by image.
    pub progress: TextMap<PullFigures>,
    /// Images whose pulls are being watched.
    pub monitors: Vec<String>,
    /// Architectures of the images of pods, by namespace and name.
    pub arch: TextMap<String>,
    pub arch_check_pending: bool,
    pub pods: Vec<PodStat>,
    pub pending_shell_command: Option<String>,
    pub pending_sudo_hosts: Option<(String, usize)>,
}

/// Appends an effect.
fn emit(fx: &mut Vec<MessageEffect>, e: MessageEffect)
    ensures
        effects(final(fx)@) == effects(old(fx)@).push(e@),
{
    let ghost before = effects(fx@);
    let ghost x = e@;
    fx.push(e);
    assert(effects(fx@) =~= before.push(x));
}

fn no_effects() -> (r: Vec<MessageEffect>)
    ensures
        effects(r@) == Seq::<EffectView>::empty(),
{
    let r: Vec<MessageEffect> = Vec::new();
    assert(effects(r@) =~= Seq::<EffectView>::empty());
    r
}

fn one_effect(e: MessageEffect) -> (r: Vec<MessageEffect>)
    ensures
        effects(r@) == seq![e@],
{
    let mut r = no_effects();
    emit(&mut r, e);
    r
}

// ---------------------------------------------------------------------------
// Pods
// ---------------------------------------------------------------------------

/// Whether the list of pods was brought up to date after `old`'s other parts became those of
/// `new`. Unknown architectures are asked for, unless that is under way.
pub open spec fn pods_refreshed(
    host: Seq<char>,
    was_pending: bool,
    new: AppState,
    fx: Seq<EffectView>,
) -> bool {
    let ask = !was_pending && arch_unknown(new.running@, new.arch@);
    &&& stat_views(new.pods@) == merged_pods(
        new.running@,
        new.pending@,
        new.progress@,
        new.arch@,
        host,
    )
    &&& new.arch_check_pending == (was_pending || ask)
    &&& fx =~= if ask {
        seq![EffectView::CheckArchitectures, EffectView::ShowPods, EffectView::SyncPanel]
    } else {
        seq![EffectView::ShowPods, EffectView::SyncPanel]
    }
}

/// Whether an image is being pulled for some waiting pod.
pub open spec fn still_pulling(pending: Seq<PendingPod>, image: Seq<char>) -> bool {
    exists|i: int, j: int|
        0 <= i < pending.len() && 0 <= j < pending[i].containers@.len() && (
        #[trigger] pending[i].containers@[j]).image@ == image && means_pulling(
            pending[i].containers@[j].reason@,
        )
}

/// The pulls of images that are still being pulled.
pub open spec fn live_pulls(s: Seq<(Seq<char>, PullFigures)>, pending: Seq<PendingPod>) -> Seq<
    (Seq<char>, PullFigures),
>
    decreases s.len(),
{
    if s.len() == 0 {
        Seq::empty()
    } else if still_pulling(pending, s.last().0) {
        live_pulls(s.drop_last(), pending).push(s.last())
    } else {
        live_pulls(s.drop_last(), pending)
    }
}

/// The pulls brought up to date with a list of figures.
pub open spec fn pulls_advanced(s: Seq<(Seq<char>, PullFigures)>, news: Seq<(String, PullFigures)>) -> Seq<
    (Seq<char>, PullFigures),
>
    decreases news.len(),
{
    if news.len() == 0 {
        s
    } else {
        let before = pulls_advanced(s, news.drop_last());
        let n = news.last();
        let known = match lookup(before, n.0@) {
            Some(p) => p,
            None => no_figures(),
        };
        put(before, n.0@, advanced(known, n.1))
    }
}

/// The architectures with a list of newer ones.
pub open spec fn arch_extended(s: Seq<(Seq<char>, String)>, news: Seq<(String, String)>) -> Seq<
    (Seq<char>, String),
>
    decreases news.len(),
{
    if news.len() == 0 {
        s
    } else {
        put(arch_extended(s, news.drop_last()), news.last().0@, news.last().1)
    }
}

/// The texts without those equal to `x`.
pub open spec fn texts_without(s: Seq<Seq<char>>, x: Seq<char>) -> Seq<Seq<char>>
    decreases s.len(),
{
    if s.len() == 0 {
        Seq::empty()
    } else if s.last() == x {
        texts_without(s.drop_last(), x)
    } else {
        texts_without(s.drop_last(), x).push(s.last())
    }
}

fn image_still_pulling(pending: &Vec<PendingPod>, image: &str) -> (r: bool)
    ensures
        r == still_pulling(pending@, image@),
{
    let mut i: usize = 0;
    while i < pending.len()
        invariant
            i <= pending@.len(),
            forall|a: int, b: int|
                0 <= a < i && 0 <= b < pending@[a].containers@.len() ==> !((
                #[trigger] pending@[a].containers@[b]).image@ == image@ && means_pulling(
                    pending@[a].containers@[b].reason@,
                )),
        decreases pending@.len() - i,
    {
        let cs = &pending[i].containers;
        let mut j: usize = 0;
        while j < cs.len()
            invariant
                i < pending@.len(),
                *cs == pending@[i as int].containers,
                j <= cs@.len(),
                forall|b: int|
                    0 <= b < j ==> !((#[trigger] cs@[b]).image@ == image@ && means_pulling(
                        cs@[b].reason@,
                    )),
            decreases cs@.len() - j,
        {
            if same(cs[j].image.as_str(), image) && is_pulling(cs[j].reason.as_str()) {
                assert(pending@[i as int].containers@[j as int].image@ == image@);
                return true;
            }
            j = j + 1;
        }
        i = i + 1;
    }
    false
}

/// Drops the pulls of images that no waiting pod pulls any more.
fn retain_live(progress: TextMap<PullFigures>, pending: &Vec<PendingPod>) -> (r: TextMap<PullFigures>)
    ensures
        r@ == live_pulls(progress@, pending@),
{
    let ghost all = progress@;
    let mut out: TextMap<PullFigures> = TextMap::new();
    let mut i: usize = 0;
    assert(out@ =~= live_pulls(all.take(0), pending@));
    while i < progress.entries.len()
        invariant
            i <= progress.entries@.len(),
            all == progress@,
            out@ == live_pulls(all.take(i as int), pending@),
        decreases progress.entries@.len() - i,
    {
        assert(all.take(i + 1).drop_last() =~= all.take(i as int));
        assert(all.take(i + 1).last() == (
            progress.entries@[i as int].0@,
            progress.entries@[i as int].1,
        ));
        if image_still_pulling(pending, progress.entries[i].0.as_str()) {
            let ghost before = out@;
            out.entries.push((progress.entries[i].0.clone(), progress.entries[i].1));
            assert(out@ =~= before.push(all[i as int]));
        }
        i = i + 1;
    }
    assert(all.take(i as int) =~= all);
    out
}

impl AppState {
    /// Brings the list of pods up to date.
    fn merge_and_update_pod_stats(&mut self, host: &str) -> (fx: Vec<MessageEffect>)
        ensures
            pods_refreshed(host@, old(self).arch_check_pending, *final(self), effects(fx@)),
            *final(self) == (AppState {
                pods: final(self).pods,
                arch_check_pending: final(self).arch_check_pending,
                ..*old(self)
            }),
    {
        let mut fx = no_effects();
        let pods = merge_pods(&self.running, &self.pending, &self.progress, &self.arch, host);
        if !self.arch_check_pending {
            if has_unknown_arch(&self.running, &self.arch) {
                self.arch_check_pending = true;
                emit(&mut fx, MessageEffect::CheckArchitectures);
            }
        }
        self.pods = pods;
        emit(&mut fx, MessageEffect::ShowPods);
        emit(&mut fx, MessageEffect::SyncPanel);
        fx
    }

    fn on_pending_pods(&mut self, pending: Vec<PendingPod>, host: &str) -> (fx: Vec<MessageEffect>)
        ensures
            final(self).pending == pending,
            final(self).progress@ == live_pulls(old(self).progress@, pending@),
            pods_refreshed(host@, old(self).arch_check_pending, *final(self), effects(fx@)),
            *final(self) == (AppState {
                pods: final(self).pods,
                arch_check_pending: final(self).arch_check_pending,
                pending: final(self).pending,
                progress: final(self).progress,
                ..*old(self)
            }),
    {
        let mut old_progress: TextMap<PullFigures> = TextMap::new();
        std::mem::swap(&mut old_progress, &mut self.progress);
        self.progress = retain_live(old_progress, &pending);
        self.pending = pending;
        self.merge_and_update_pod_stats(host)
    }

    fn on_pull_progress(&mut self, news: Vec<(String, PullFigures)>, host: &str) -> (fx: Vec<
        MessageEffect,
    >)
        ensures
            final(self).progress@ == pulls_advanced(old(self).progress@, news@),
            pods_refreshed(host@, old(self).arch_check_pending, *final(self), effects(fx@)),
            *final(self) == (AppState {
                pods: final(self).pods,
                arch_check_pending: final(self).arch_check_pending,
                progress: final(self).progress,
                ..*old(self)
            }),
    {
        let mut i: usize = 0;
        assert(news@.take(0) =~= Seq::<(String, PullFigures)>::empty());
        while i < news.len()
            invariant
                i <= news@.len(),
                self.progress@ == pulls_advanced(old(self).progress@, news@.take(i as int)),
                *self == (AppState { progress: self.progress, ..*old(self) }),
            decreases news@.len() - i,
        {
            assert(news@.take(i + 1).drop_last() =~= news@.take(i as int));
            let known = match self.progress.get(news[i].0.as_str()) {
                Some(p) => *p,
                None => PullFigures::none(),
            };
            self.progress.insert(news[i].0.clone(), known.advance(news[i].1));
            i = i + 1;
        }
        assert(news@.take(i as int) =~= news@);
        self.merge_and_update_pod_stats(host)
    }

    fn on_monitor_done(&mut self, image: String, host: &str) -> (fx: Vec<MessageEffect>)
        ensures
            final(self).progress@ == without(old(self).progress@, image@),
            views(final(self).monitors@) == texts_without(views(old(self).monitors@), image@),
            pods_refreshed(host@, old(self).arch_check_pending, *final(self), effects(fx@)),
            *final(self) == (AppState {
                pods: final(self).pods,
                arch_check_pending: final(self).arch_check_pending,
                progress: final(self).progress,
                monitors: final(self).monitors,
                ..*old(self)
            }),
    {
        self.progress.remove(image.as_str());
        let mut kept: Vec<String> = Vec::new();
        let ghost all = views(self.monitors@);
        let mut i: usize = 0;
        assert(views(kept@) =~= texts_without(all.take(0), image@));
        while i < self.monitors.len()
            invariant
                i <= self.monitors@.len(),
                all == views(self.monitors@),
                views(kept@) == texts_without(all.take(i as int), image@),
            decreases self.monitors@.len() - i,
        {
            assert(all.take(i + 1).drop_last() =~= all.take(i as int));
            assert(all.take(i + 1).last() == self.monitors@[i as int]@);
            if !same(self.monitors[i].as_str(), image.as_str()) {
                proof {
                    crate::text::lemma_views_push(kept@, self.monitors@[i as int]);
                }
                kept.push(self.monitors[i].clone());
            }
            i = i + 1;
        }
        assert(all.take(i as int) =~= all);
        self.monitors = kept;
        self.merge_and_update_pod_stats(host)
    }

    fn on_image_arch(&mut self, news: Vec<(String, String)>, host: &str) -> (fx: Vec<MessageEffect>)
        ensures
            final(self).arch@ == arch_extended(old(self).arch@, news@),
            pods_refreshed(host@, false, *final(self), effects(fx@)),
            *final(self) == (AppState {
                pods: final(self).pods,
                arch_check_pending: final(self).arch_check_pending,
                arch: final(self).arch,
                ..*old(self)
            }),
    {
        let mut i: usize = 0;
        assert(news@.take(0) =~= Seq::<(String, String)>::empty());
        while i < news.len()
            invariant
                i <= news@.len(),
                self.arch@ == arch_extended(old(self).arch@, news@.take(i as int)),
                *self == (AppState { arch: self.arch, ..*old(self) }),
            decreases news@.len() - i,
        {
            assert(news@.take(i + 1).drop_last() =~= news@.take(i as int));
            self.arch.insert(news[i].0.clone(), news[i].1.clone());
            i = i + 1;
        }
        assert(news@.take(i as int) =~= news@);
        self.arch_check_pending = false;
        self.merge_and_update_pod_stats(host)
    }
}

// ---------------------------------------------------------------------------
// Commands and cluster status
// ---------------------------------------------------------------------------

/// How the end of a command is reported.
pub open spec fn completion(code: i32) -> (OutputType, Seq<char>) {
    if code == 0 {
        (OutputType::Success, "Command completed successfully"@)
    } else {
        (OutputType::Error, "Command exited with code "@ + signed_decimal(code as int))
    }
}

/// The ports that a running cluster publishes, as they are shown.
pub open spec fn shown_ports(config: ClusterConfig) -> Seq<(u16, u16)> {
    seq![
        (config.http_port, config.http_port),
        (config.https_port, config.https_port),
        (config.api_port, config.api_port),
    ] + config.additional_ports@
}

/// What a change of the cluster's status leads to.
pub open spec fn status_effects(
    before: ClusterStatus,
    after: ClusterStatus,
    connected: bool,
    config: ClusterConfig,
) -> Seq<EffectView> {
    let was = before == ClusterStatus::Running;
    let is_ = after == ClusterStatus::Running;
    let shown = seq![EffectView::ShowConnection(is_)];
    if is_ && !was {
        let refreshed = shown.push(EffectView::ShowPorts(shown_ports(config))).push(
            EffectView::RefreshIngress,
        ).push(EffectView::CheckMissingHosts).push(EffectView::CheckPortForwards).push(
            EffectView::CheckVolumes,
        );
        if connected {
            refreshed.push(EffectView::ResetTimers)
        } else {
            refreshed.push(EffectView::ConnectClient).push(EffectView::ResetTimers)
        }
    } else if was && !is_ {
        shown.push(EffectView::ClearCluster)
    } else {
        shown
    }
}

fn ports_to_show(config: &ClusterConfig) -> (r: Vec<(u16, u16)>)
    ensures
        r@ == shown_ports(*config),
{
    let mut v: Vec<(u16, u16)> = Vec::new();
    v.push((config.http_port, config.http_port));
    v.push((config.https_port, config.https_port));
    v.push((config.api_port, config.api_port));
    let mut i: usize = 0;
    while i < config.additional_ports.len()
        invariant
            i <= config.additional_ports@.len(),
            v@ =~= shown_ports(*config).take(3 + i),
        decreases config.additional_ports@.len() - i,
    {
        v.push(config.additional_ports[i]);
        i = i + 1;
    }
    assert(v@ =~= shown_ports(*config));
    v
}

impl AppState {
    fn on_command_complete(&mut self, code: i32) -> (fx: Vec<MessageEffect>)
        ensures
            effects(fx@) == seq![
                EffectView::ShowExecuting(false),
                EffectView::Output(completion(code).0, completion(code).1),
                EffectView::Popup(completion(code).0, completion(code).1),
                EffectView::PopupToBottom,
                EffectView::CheckStatus,
            ],
            final(self).input@ == (crate::app::events::InputView {
                is_executing: false,
                cancellable: false,
                ..old(self).input@
            }),
            *final(self) == (AppState { input: final(self).input, ..*old(self) }),
    {
        self.input.is_executing = false;
        self.input.cancellable = false;
        let (kind, text) = if code == 0 {
            (OutputType::Success, "Command completed successfully".to_owned())
        } else {
            let mut s = "Command exited with code ".to_owned();
            s.append(i64_text(code as i64).as_str());
            (OutputType::Error, s)
        };
        let mut fx = one_effect(MessageEffect::ShowExecuting(false));
        emit(&mut fx, MessageEffect::Output(kind, text.clone()));
        emit(&mut fx, MessageEffect::Popup(kind, text));
        emit(&mut fx, MessageEffect::PopupToBottom);
        emit(&mut fx, MessageEffect::CheckStatus);
        fx
    }

    fn on_status(&mut self, status: ClusterStatus, config: &ClusterConfig) -> (fx: Vec<MessageEffect>)
        ensures
            effects(fx@) == status_effects(
                old(self).cluster_status,
                status,
                old(self).panel.connected,
                *config,
            ),
            final(self).cluster_status == status,
            (old(self).cluster_status == ClusterStatus::Running && status != ClusterStatus::Running)
                ==> final(self).pods@.len() == 0,
            !(old(self).cluster_status == ClusterStatus::Running && status
                != ClusterStatus::Running) ==> final(self).pods == old(self).pods,
            *final(self) == (AppState {
                cluster_status: status,
                pods: final(self).pods,
                ..*old(self)
            }),
    {
        let was = self.cluster_status == ClusterStatus::Running;
        let is_ = status == ClusterStatus::Running;
        self.cluster_status = status;
        let mut fx = one_effect(MessageEffect::ShowConnection(is_));
        if is_ && !was {
            emit(&mut fx, MessageEffect::ShowPorts(ports_to_show(config)));
            emit(&mut fx, MessageEffect::RefreshIngress);
            emit(&mut fx, MessageEffect::CheckMissingHosts);
            emit(&mut fx, MessageEffect::CheckPortForwards);
            emit(&mut fx, MessageEffect::CheckVolumes);
            if !self.panel.connected {
                emit(&mut fx, MessageEffect::ConnectClient);
            }
            emit(&mut fx, MessageEffect::ResetTimers);
        }
        if was && !is_ {
            self.pods = Vec::new();
            emit(&mut fx, MessageEffect::ClearCluster);
        }
        fx
    }
}

// ---------------------------------------------------------------------------
// Shell
// ---------------------------------------------------------------------------

/// Whether the panel shows the shell of a pod with this name.
pub open spec fn shows_shell_of(p: Panel, name: Seq<char>) -> bool {
    match p.shown {
        Some(s) => s.1 == DetailTab::Shell && s.0.name@ == name,
        None => false,
    }
}

/// A session that arrives is taken where its shell is shown; a command that waits for it is sent.
pub open spec fn session_ready(old: AppState, pod: PodRef, new: AppState, fx: Seq<EffectView>) -> bool {
    if shows_shell_of(old.panel, pod.name@) {
        &&& new.panel.session == Some(pod)
        &&& new.panel.shown == old.panel.shown
        &&& new.panel.connected == old.panel.connected
        &&& new.pending_shell_command is None
        &&& match old.pending_shell_command {
            Some(c) => {
                &&& fx =~= seq![
                    EffectView::ShellConnected,
                    EffectView::WriteShell(c@),
                    EffectView::ShellInteractive(true),
                ]
                &&& new.input@ == (crate::app::events::InputView {
                    mode: AppMode::Shell,
                    ..old.input@
                })
            },
            None => fx =~= seq![EffectView::ShellConnected] && new.input == old.input,
        }
        &&& new == (AppState {
            panel: new.panel,
            pending_shell_command: new.pending_shell_command,
            input: new.input,
            ..old
        })
    } else {
        fx =~= seq![EffectView::CloseHandle] && new == old
    }
}

/// A session that ends leaves nothing behind.
pub open spec fn session_ended(
    old: AppState,
    error: Option<Seq<char>>,
    new: AppState,
    fx: Seq<EffectView>,
) -> bool {
    &&& new.panel.session is None
    &&& new.panel.shown == old.panel.shown
    &&& new.panel.connected == old.panel.connected
    &&& new.pending_shell_command is None
    &&& fx =~= seq![
        EffectView::ShellInteractive(false),
        match error {
            Some(e) => EffectView::ShellError(e),
            None => EffectView::ShellDisconnected,
        },
    ]
    &&& new.input@ == if old.input.mode == AppMode::Shell {
        crate::app::events::InputView { mode: AppMode::Normal, ..old.input@ }
    } else {
        old.input@
    }
    &&& new == (AppState {
        panel: new.panel,
        pending_shell_command: new.pending_shell_command,
        input: new.input,
        ..old
    })
}

/// The index of the first pod with a name, or the length.
pub open spec fn pod_index(pods: Seq<PodStat>, name: Seq<char>) -> int
    decreases pods.len(),
{
    if pods.len() == 0 || pods[0].name@ == name {
        0
    } else {
        1 + pod_index(pods.skip(1), name)
    }
}

/// What is written into a shell to run a command.
pub open spec fn shell_line(workdir: Seq<char>, command: Seq<char>) -> Seq<char> {
    in_directory(workdir, command) + "\n"@
}

/// The pod of a command is selected and its shell shown. A session of that pod gets the command
/// at once; otherwise the command waits for a new session.
pub open spec fn command_resolved(
    old: AppState,
    pod: PodRef,
    container: Seq<char>,
    workdir: Seq<char>,
    command: Seq<char>,
    has_view: bool,
    new: AppState,
    fx: Seq<EffectView>,
) -> bool {
    let line = shell_line(workdir, command);
    let i = pod_index(old.pods@, pod.name@);
    let selected = if i < old.pods@.len() {
        seq![EffectView::SelectPod(i as usize)]
    } else {
        Seq::<EffectView>::empty()
    };
    let opened = selected.push(EffectView::OpenPanel);
    let same_session = old.panel.session matches Some(s) && same_pod(s, pod);
    &&& new.panel.shown == Some((pod, DetailTab::Shell))
    &&& new.panel.connected == old.panel.connected
    &&& if same_session {
        &&& new.panel.session == old.panel.session
        &&& new.pending_shell_command == old.pending_shell_command
        &&& new.input@ == (crate::app::events::InputView {
            mode: AppMode::Shell,
            focus: FocusArea::PodStats,
            ..old.input@
        })
        &&& fx =~= (if has_view {
            opened
        } else {
            opened.push(EffectView::InitShellView).push(EffectView::ShellConnected)
        }).push(EffectView::WriteShell(line)).push(EffectView::ShellInteractive(true))
    } else {
        let closed = if old.panel.session is Some {
            opened.push(EffectView::CloseSession)
        } else {
            opened
        };
        &&& new.panel.session is None
        &&& opt_view(new.pending_shell_command) == Some(line)
        &&& new.input@ == (crate::app::events::InputView {
            focus: FocusArea::PodStats,
            ..old.input@
        })
        &&& fx =~= if old.panel.connected {
            closed.push(EffectView::InitShellView).push(EffectView::SpawnShell(non_empty(container)))
        } else {
            closed.push(EffectView::ShellError("Kubernetes client not connected"@))
        }
    }
    &&& new == (AppState {
        panel: new.panel,
        pending_shell_command: new.pending_shell_command,
        input: new.input,
        ..old
    })
}

impl AppState {
    fn on_session_ready(&mut self, pod: PodRef) -> (fx: Vec<MessageEffect>)
        ensures
            session_ready(*old(self), pod, *final(self), effects(fx@)),
    {
        let shown = match &self.panel.shown {
            Some(s) => s.1 == DetailTab::Shell && same(s.0.name.as_str(), pod.name.as_str()),
            None => false,
        };
        if !shown {
            return one_effect(MessageEffect::CloseHandle);
        }
        let mut fx = one_effect(MessageEffect::ShellConnected);
        self.panel.session = Some(pod);
        let mut waiting: Option<String> = None;
        std::mem::swap(&mut waiting, &mut self.pending_shell_command);
        if let Some(c) = waiting {
            emit(&mut fx, MessageEffect::WriteShell(c));
            self.input.mode = AppMode::Shell;
            emit(&mut fx, MessageEffect::ShellInteractive(true));
        }
        fx
    }

    fn on_session_ended(&mut self, error: Option<String>) -> (fx: Vec<MessageEffect>)
        ensures
            session_ended(*old(self), opt_view(error), *final(self), effects(fx@)),
    {
        self.panel.session = None;
        self.pending_shell_command = None;
        let mut fx = one_effect(MessageEffect::ShellInteractive(false));
        match error {
            Some(e) => emit(&mut fx, MessageEffect::ShellError(e)),
            None => emit(&mut fx, MessageEffect::ShellDisconnected),
        }
        if self.input.mode == AppMode::Shell {
            self.input.mode = AppMode::Normal;
        }
        fx
    }

    fn index_of_pod(&self, name: &str) -> (r: usize)
        ensures
            r == pod_index(self.pods@, name@),
            r <= self.pods@.len(),
    {
        let mut i: usize = 0;
        assert(self.pods@.skip(0) =~= self.pods@);
        while i < self.pods.len()
            invariant
                i <= self.pods@.len(),
                pod_index(self.pods@, name@) == i + pod_index(self.pods@.skip(i as int), name@),
            decreases self.pods@.len() - i,
        {
            assert(self.pods@.skip(i as int)[0] == self.pods@[i as int]);
            assert(self.pods@.skip(i as int).skip(1) =~= self.pods@.skip(i + 1));
            if same(self.pods[i].name.as_str(), name) {
                return i;
            }
            i = i + 1;
        }
        i
    }

    fn on_command_resolved(
        &mut self,
        pod: PodRef,
        container: &str,
        workdir: &str,
        command: &str,
        has_view: bool,
    ) -> (fx: Vec<MessageEffect>)
        ensures
            command_resolved(
                *old(self),
                pod,
                container@,
                workdir@,
                command@,
                has_view,
                *final(self),
                effects(fx@),
            ),
    {
        let mut line = command_in_directory(workdir, command);
        line.append("\n");
        let mut fx = no_effects();
        let i: usize = self.index_of_pod(pod.name.as_str());
        if i < self.pods.len() {
            emit(&mut fx, MessageEffect::SelectPod(i));
        }
        self.input.focus = FocusArea::PodStats;
        emit(&mut fx, MessageEffect::OpenPanel);
        let same_session = match &self.panel.session {
            Some(s) => same(s.name.as_str(), pod.name.as_str()) && same(
                s.namespace.as_str(),
                pod.namespace.as_str(),
            ),
            None => false,
        };
        self.panel.shown = Some((pod, DetailTab::Shell));
        if same_session {
            if !has_view {
                emit(&mut fx, MessageEffect::InitShellView);
                emit(&mut fx, MessageEffect::ShellConnected);
            }
            emit(&mut fx, MessageEffect::WriteShell(line));
            self.input.mode = AppMode::Shell;
            emit(&mut fx, MessageEffect::ShellInteractive(true));
        } else {
            if self.panel.session.is_some() {
                self.panel.session = None;
                emit(&mut fx, MessageEffect::CloseSession);
            }
            self.pending_shell_command = Some(line);
            if self.panel.connected {
                emit(&mut fx, MessageEffect::InitShellView);
                emit(&mut fx, MessageEffect::SpawnShell(some_text(container)));
            } else {
                emit(
                    &mut fx,
                    MessageEffect::ShellError("Kubernetes client not connected".to_owned()),
                );
            }
        }
        fx
    }
}

// ---------------------------------------------------------------------------
// All messages
// ---------------------------------------------------------------------------

/// What a message does. `host` is the architecture of this machine.
pub open spec fn message_handled(
    old: AppState,
    msg: AppMessage,
    config: ClusterConfig,
    host: Seq<char>,
    new: AppState,
    fx: Seq<EffectView>,
) -> bool {
    let open = old.panel.shown is Some;
    match msg {
        AppMessage::OutputLine(k, s) => fx =~= seq![EffectView::Output(k, s@), EffectView::Popup(k, s@)]
            && new == old,
        AppMessage::CommandComplete(code) => {
            &&& fx =~= seq![
                EffectView::ShowExecuting(false),
                EffectView::Output(completion(code).0, completion(code).1),
                EffectView::Popup(completion(code).0, completion(code).1),
                EffectView::PopupToBottom,
                EffectView::CheckStatus,
            ]
            &&& new.input@ == (crate::app::events::InputView {
                is_executing: false,
                cancellable: false,
                ..old.input@
            })
            &&& new == (AppState { input: new.input, ..old })
        },
        AppMessage::ClusterStatusUpdate(s) => {
            let stopped = old.cluster_status == ClusterStatus::Running && s
                != ClusterStatus::Running;
            &&& fx == status_effects(old.cluster_status, s, old.panel.connected, config)
            &&& stopped ==> new.pods@.len() == 0
            &&& !stopped ==> new.pods == old.pods
            &&& new == (AppState { cluster_status: s, pods: new.pods, ..old })
        },
        AppMessage::IngressEntriesLoaded => {
            &&& fx =~= seq![
                EffectView::Forward,
                EffectView::CheckIngressHealth,
                EffectView::CheckMissingHosts,
            ]
            &&& new == old
        },
        AppMessage::IngressHealthUpdated => fx =~= seq![EffectView::Forward] && new == old,
        AppMessage::MissingHostsUpdated => fx =~= seq![EffectView::Forward] && new == old,
        AppMessage::ResourceStatsUpdated => fx =~= seq![EffectView::Forward] && new == old,
        AppMessage::ActivePortForwardsUpdated => fx =~= seq![EffectView::Forward] && new == old,
        AppMessage::VolumeStatsUpdated => fx =~= seq![EffectView::Forward] && new == old,
        AppMessage::DiagnosticsUpdated => fx =~= seq![EffectView::Forward] && new == old,
        AppMessage::PodStatsUpdated(v) => {
            &&& new.running == v
            &&& pods_refreshed(host, old.arch_check_pending, new, fx)
            &&& new == (AppState {
                pods: new.pods,
                arch_check_pending: new.arch_check_pending,
                running: v,
                ..old
            })
        },
        AppMessage::PendingPodsUpdated(v) => {
            &&& new.pending == v
            &&& new.progress@ == live_pulls(old.progress@, v@)
            &&& pods_refreshed(host, old.arch_check_pending, new, fx)
            &&& new == (AppState {
                pods: new.pods,
                arch_check_pending: new.arch_check_pending,
                pending: v,
                progress: new.progress,
                ..old
            })
        },
        AppMessage::PullProgressUpdated(v) => {
            &&& new.progress@ == pulls_advanced(old.progress@, v@)
            &&& pods_refreshed(host, old.arch_check_pending, new, fx)
            &&& new == (AppState {
                pods: new.pods,
                arch_check_pending: new.arch_check_pending,
                progress: new.progress,
                ..old
            })
        },
        AppMessage::ImagePullMonitorDone(image) => {
            &&& new.progress@ == without(old.progress@, image@)
            &&& views(new.monitors@) == texts_without(views(old.monitors@), image@)
            &&& pods_refreshed(host, old.arch_check_pending, new, fx)
            &&& new == (AppState {
                pods: new.pods,
                arch_check_pending: new.arch_check_pending,
                progress: new.progress,
                monitors: new.monitors,
                ..old
            })
        },
        AppMessage::PodTimelineLoaded(name) => {
            &&& new == old
            &&& fx =~= if open && (old.panel.shown->0).0.name@ == name@ {
                seq![EffectView::Forward]
            } else {
                seq![]
            }
        },
        AppMessage::PodLogsLoaded => new == old && fx =~= if open {
            seq![EffectView::Forward]
        } else {
            seq![]
        },
        AppMessage::PodDescribeLoaded => new == old && fx =~= if open {
            seq![EffectView::Forward]
        } else {
            seq![]
        },
        AppMessage::ShellOutput(has_view) => new == old && fx =~= if open && has_view {
            seq![EffectView::Forward]
        } else {
            seq![]
        },
        AppMessage::ShellSessionReady(pod) => session_ready(old, pod, new, fx),
        AppMessage::ShellSessionEnded(e) => session_ended(old, opt_view(e), new, fx),
        AppMessage::ShellCommandPodResolved(pod, container, workdir, command, has_view) => {
            command_resolved(old, pod, container@, workdir@, command@, has_view, new, fx)
        },
        AppMessage::K8sClientReady(b) => {
            &&& fx =~= seq![EffectView::Forward]
            &&& new.panel.connected == b
            &&& new.panel.shown == old.panel.shown
            &&& new.panel.session == old.panel.session
            &&& new == (AppState { panel: new.panel, ..old })
        },
        AppMessage::ImageArchUpdated(v) => {
            &&& new.arch@ == arch_extended(old.arch@, v@)
            &&& pods_refreshed(host, false, new, fx)
            &&& new == (AppState {
                pods: new.pods,
                arch_check_pending: new.arch_check_pending,
                arch: new.arch,
                ..old
            })
        },
        AppMessage::NeedsSudoHostsWrite(content, count) => {
            &&& fx.len() == 0
            &&& new == (AppState { pending_sudo_hosts: Some((content, count)), ..old })
        },
        AppMessage::Error(s) => fx =~= seq![EffectView::Output(OutputType::Error, s@)] && new == old,
    }
}

impl AppState {
    /// The state at the start of the program.
    pub fn new() -> (r: Self)
        ensures
            crate::app::events::sane(r.input@),
            r.input.mode == AppMode::Normal,
            r.panel.shown is None,
            r.panel.session is None,
            !r.panel.connected,
            r.cluster_status == ClusterStatus::Unknown,
            r.running@.len() == 0,
            r.pending@.len() == 0,
            r.progress@.len() == 0,
            r.monitors@.len() == 0,
            r.arch@.len() == 0,
            !r.arch_check_pending,
            r.pods@.len() == 0,
            r.pending_shell_command is None,
            r.pending_sudo_hosts is None,
    {
        AppState {
            input: InputState::new(),
            panel: Panel::new(false),
            cluster_status: ClusterStatus::Unknown,
            running: Vec::new(),
            pending: Vec::new(),
            progress: TextMap::new(),
            monitors: Vec::new(),
            arch: TextMap::new(),
            arch_check_pending: false,
            pods: Vec::new(),
            pending_shell_command: None,
            pending_sudo_hosts: None,
        }
    }

    /// Takes a message from a background task.
    pub fn handle_message(&mut self, msg: AppMessage, config: &ClusterConfig, host: &str) -> (fx: Vec<
        MessageEffect,
    >)
        ensures
            message_handled(*old(self), msg, *config, host@, *final(self), effects(fx@)),
    {
        match msg {
            AppMessage::OutputLine(k, s) => {
                let mut fx = one_effect(MessageEffect::Output(k, s.clone()));
                emit(&mut fx, MessageEffect::Popup(k, s));
                fx
            },
            AppMessage::CommandComplete(code) => self.on_command_complete(code),
            AppMessage::ClusterStatusUpdate(s) => self.on_status(s, config),
            AppMessage::IngressEntriesLoaded => {
                let mut fx = one_effect(MessageEffect::Forward);
                emit(&mut fx, MessageEffect::CheckIngressHealth);
                emit(&mut fx, MessageEffect::CheckMissingHosts);
                fx
            },
            AppMessage::IngressHealthUpdated => one_effect(MessageEffect::Forward),
            AppMessage::MissingHostsUpdated => one_effect(MessageEffect::Forward),
            AppMessage::ResourceStatsUpdated => one_effect(MessageEffect::Forward),
            AppMessage::ActivePortForwardsUpdated => one_effect(MessageEffect::Forward),
            AppMessage::VolumeStatsUpdated => one_effect(MessageEffect::Forward),
            AppMessage::DiagnosticsUpdated => one_effect(MessageEffect::Forward),
            AppMessage::PodStatsUpdated(v) => {
                self.running = v;
                self.merge_and_update_pod_stats(host)
            },
            AppMessage::PendingPodsUpdated(v) => self.on_pending_pods(v, host),
            AppMessage::PullProgressUpdated(v) => self.on_pull_progress(v, host),
            AppMessage::ImagePullMonitorDone(image) => self.on_monitor_done(image, host),
            AppMessage::PodTimelineLoaded(name) => {
                let mine = match &self.panel.shown {
                    Some(s) => same(s.0.name.as_str(), name.as_str()),
                    None => false,
                };
                if mine {
                    one_effect(MessageEffect::Forward)
                } else {
                    no_effects()
                }
            },
            AppMessage::PodLogsLoaded => if self.panel.shown.is_some() {
                one_effect(MessageEffect::Forward)
            } else {
                no_effects()
            },
            AppMessage::PodDescribeLoaded => if self.panel.shown.is_some() {
                one_effect(MessageEffect::Forward)
            } else {
                no_effects()
            },
            AppMessage::ShellOutput(has_view) => if self.panel.shown.is_some() && has_view {
                one_effect(MessageEffect::Forward)
            } else {
                no_effects()
            },
            AppMessage::ShellSessionReady(pod) => self.on_session_ready(pod),
            AppMessage::ShellSessionEnded(e) => self.on_session_ended(e),
            AppMessage::ShellCommandPodResolved(pod, container, workdir, command, has_view) => {
                self.on_command_resolved(
                    pod,
                    container.as_str(),
                    workdir.as_str(),
                    command.as_str(),
                    has_view,
                )
            },
            AppMessage::K8sClientReady(b) => {
                self.panel.connected = b;
                one_effect(MessageEffect::Forward)
            },
            AppMessage::ImageArchUpdated(v) => self.on_image_arch(v, host),
            AppMessage::NeedsSudoHostsWrite(content, count) => {
                self.pending_sudo_hosts = Some((content, count));
                no_effects()
            },
            AppMessage::Error(s) => one_effect(MessageEffect::Output(OutputType::Error, s)),
        }
    }
}

// ---------------------------------------------------------------------------
// Laws
// ---------------------------------------------------------------------------

/// No progress message makes a pull go back: what was known stays a lower bound.
pub proof fn law_pulls_never_go_back(
    s: Seq<(Seq<char>, PullFigures)>,
    news: Seq<(String, PullFigures)>,
    image: Seq<char>,
)
    requires
        lookup(s, image) is Some,
    ensures
        lookup(pulls_advanced(s, news), image) is Some,
        lookup(pulls_advanced(s, news), image)->0.downloaded_bytes >= lookup(s, image)->0.downloaded_bytes,
        lookup(pulls_advanced(s, news), image)->0.total_bytes >= lookup(s, image)->0.total_bytes,
    decreases news.len(),
{
    if news.len() > 0 {
        law_pulls_never_go_back(s, news.drop_last(), image);
        let before = pulls_advanced(s, news.drop_last());
        let n = news.last();
        let known = match lookup(before, n.0@) {
            Some(p) => p,
            None => no_figures(),
        };
        crate::textmap::law_put_then_lookup(before, n.0@, advanced(known, n.1), image);
    }
}

/// A pull whose image no pod waits for any more is forgotten, all others are kept.
pub proof fn law_stale_pulls_are_dropped(s: Seq<(Seq<char>, PullFigures)>, pending: Seq<PendingPod>, i: int)
    requires
        0 <= i < live_pulls(s, pending).len(),
    ensures
        still_pulling(pending, live_pulls(s, pending)[i].0),
    decreases s.len(),
{
    if s.len() > 0 {
        let rest = live_pulls(s.drop_last(), pending);
        if i < rest.len() {
            law_stale_pulls_are_dropped(s.drop_last(), pending, i);
        }
    }
}

/// A pull is kept if and only if its image is still being pulled for a pod.
pub proof fn law_live_pulls_are_kept(
    s: Seq<(Seq<char>, PullFigures)>,
    pending: Seq<PendingPod>,
    x: (Seq<char>, PullFigures),
)
    ensures
        live_pulls(s, pending).contains(x) <==> s.contains(x) && still_pulling(pending, x.0),
    decreases s.len(),
{
    if s.len() > 0 {
        let d = s.drop_last();
        let r = live_pulls(d, pending);
        law_live_pulls_are_kept(d, pending, x);
        assert(s =~= d.push(s.last()));
        if d.contains(x) {
            let i = choose|i: int| 0 <= i < d.len() && d[i] == x;
            assert(s[i] == x);
        }
        if s.contains(x) {
            let i = choose|i: int| 0 <= i < s.len() && s[i] == x;
            if i < d.len() {
                assert(d[i] == x);
            }
        }
        assert(s[s.len() - 1] == s.last());
        let t = r.push(s.last());
        assert(t[r.len() as int] == s.last());
        if r.contains(x) {
            let i = choose|i: int| 0 <= i < r.len() && r[i] == x;
            assert(t[i] == x);
        }
        if t.contains(x) {
            let i = choose|i: int| 0 <= i < t.len() && t[i] == x;
            if i < r.len() {
                assert(r[i] == x);
            }
        }
    }
}

/// The watch of a pull that is done is given up, and no other.
pub proof fn law_other_watches_go_on(s: Seq<Seq<char>>, x: Seq<char>, y: Seq<char>)
    ensures
        texts_without(s, x).contains(y) <==> s.contains(y) && y != x,
    decreases s.len(),
{
    if s.len() > 0 {
        let d = s.drop_last();
        let r = texts_without(d, x);
        law_other_watches_go_on(d, x, y);
        if d.contains(y) {
            let i = choose|i: int| 0 <= i < d.len() && d[i] == y;
            assert(s[i] == y);
        }
        if s.contains(y) {
            let i = choose|i: int| 0 <= i < s.len() && s[i] == y;
            if i < d.len() {
                assert(d[i] == y);
            }
        }
        assert(s[s.len() - 1] == s.last());
        let t = r.push(s.last());
        assert(t[r.len() as int] == s.last());
        if r.contains(y) {
            let i = choose|i: int| 0 <= i < r.len() && r[i] == y;
            assert(t[i] == y);
        }
        if t.contains(y) {
            let i = choose|i: int| 0 <= i < t.len() && t[i] == y;
            if i < r.len() {
                assert(r[i] == y);
            }
        }
    }
}

/// The newest architecture of a pod's image counts, and what is known of other pods stays.
pub proof fn law_newest_architecture_counts(
    s: Seq<(Seq<char>, String)>,
    news: Seq<(String, String)>,
    key: Seq<char>,
    j: int,
)
    ensures
        (forall|i: int| 0 <= i < news.len() ==> (#[trigger] news[i]).0@ != key) ==> lookup(
            arch_extended(s, news),
            key,
        ) == lookup(s, key),
        0 <= j < news.len() && news[j].0@ == key && (forall|i: int|
            j < i < news.len() ==> (#[trigger] news[i]).0@ != key) ==> lookup(
            arch_extended(s, news),
            key,
        ) == Some(news[j].1),
    decreases news.len(),
{
    if news.len() > 0 {
        let d = news.drop_last();
        law_newest_architecture_counts(s, d, key, j);
        law_put_then_lookup(arch_extended(s, d), news.last().0@, news.last().1, key);
        assert forall|i: int| 0 <= i < d.len() implies #[trigger] d[i] == news[i] by {}
        assert(news[news.len() - 1] == news.last());
    }
}

/// The first pod of a name is the one that is selected; where there is none, none is.
pub proof fn law_first_pod_is_selected(pods: Seq<PodStat>, name: Seq<char>)
    ensures
        0 <= pod_index(pods, name) <= pods.len(),
        pod_index(pods, name) < pods.len() ==> pods[pod_index(pods, name)].name@ == name,
        forall|i: int| 0 <= i < pod_index(pods, name) ==> (#[trigger] pods[i]).name@ != name,
    decreases pods.len(),
{
    if pods.len() > 0 && pods[0].name@ != name {
        let r = pods.skip(1);
        law_first_pod_is_selected(r, name);
        let k = pod_index(r, name);
        if k < r.len() {
            assert(r[k] == pods[k + 1]);
        }
        assert forall|i: int| 0 <= i < k + 1 implies (#[trigger] pods[i]).name@ != name by {
            if i > 0 {
                assert(r[i - 1] == pods[i]);
            }
        }
    }
}

/// Only an exit code of zero is a success.
pub proof fn law_exit_codes_are_reported(
    old: AppState,
    code: i32,
    config: ClusterConfig,
    host: Seq<char>,
    new: AppState,
    fx: Seq<EffectView>,
    k: OutputType,
    s: Seq<char>,
)
    requires
        message_handled(old, AppMessage::CommandComplete(code), config, host, new, fx),
        fx.contains(EffectView::Output(k, s)) || fx.contains(EffectView::Popup(k, s)),
    ensures
        k == OutputType::Success <==> code == 0,
        k == OutputType::Error <==> code != 0,
        code != 0 ==> ends(s, signed_decimal(code as int)),
        !new.input.is_executing && !new.input.cancellable,
        fx.contains(EffectView::CheckStatus),
{
    let t = "Command exited with code "@ + signed_decimal(code as int);
    let n = signed_decimal(code as int).len();
    assert(t.subrange(t.len() - n, t.len() as int) =~= signed_decimal(code as int));
    assert(fx[4] == EffectView::CheckStatus);
}

/// A cluster that starts to run is looked at, with its ports shown and a connection made where there is
/// none; one that ceases to run is taken from the screen; otherwise nothing of that happens.
pub proof fn law_screen_follows_the_cluster(
    old: AppState,
    after: ClusterStatus,
    config: ClusterConfig,
    host: Seq<char>,
    new: AppState,
    fx: Seq<EffectView>,
)
    requires
        message_handled(old, AppMessage::ClusterStatusUpdate(after), config, host, new, fx),
    ensures
        new.cluster_status == after,
        fx.contains(EffectView::ClearCluster) <==> old.cluster_status == ClusterStatus::Running
            && after != ClusterStatus::Running,
        fx.contains(EffectView::RefreshIngress) <==> old.cluster_status != ClusterStatus::Running
            && after == ClusterStatus::Running,
        fx.contains(EffectView::CheckMissingHosts) <==> fx.contains(EffectView::RefreshIngress),
        fx.contains(EffectView::CheckPortForwards) <==> fx.contains(EffectView::RefreshIngress),
        fx.contains(EffectView::CheckVolumes) <==> fx.contains(EffectView::RefreshIngress),
        fx.contains(EffectView::ResetTimers) <==> fx.contains(EffectView::RefreshIngress),
        fx.contains(EffectView::ConnectClient) <==> fx.contains(EffectView::RefreshIngress)
            && !old.panel.connected,
        fx.contains(EffectView::ShowConnection(true)) <==> after == ClusterStatus::Running,
        fx.contains(EffectView::ShowConnection(false)) <==> after != ClusterStatus::Running,
        fx.contains(EffectView::ClearCluster) ==> new.pods@.len() == 0,
        !fx.contains(EffectView::ClearCluster) ==> new.pods == old.pods,
{
    assert(fx[0] is ShowConnection);
    if old.cluster_status != ClusterStatus::Running && after == ClusterStatus::Running {
        assert(fx[2] == EffectView::RefreshIngress);
        assert(fx[3] == EffectView::CheckMissingHosts);
        assert(fx[4] == EffectView::CheckPortForwards);
        assert(fx[5] == EffectView::CheckVolumes);
        if old.panel.connected {
            assert(fx[6] == EffectView::ResetTimers);
        } else {
            assert(fx[6] == EffectView::ConnectClient);
            assert(fx[7] == EffectView::ResetTimers);
        }
    } else if old.cluster_status == ClusterStatus::Running && after != ClusterStatus::Running {
        assert(fx[1] == EffectView::ClearCluster);
    }
}

/// The ports of the configuration are shown, each of them.
pub proof fn law_configured_ports_are_shown(config: ClusterConfig, x: (u16, u16))
    ensures
        shown_ports(config).contains(x) <==> x == (config.http_port, config.http_port) || x == (
            config.https_port,
            config.https_port,
        ) || x == (config.api_port, config.api_port) || config.additional_ports@.contains(x),
        shown_ports(config).len() == config.additional_ports@.len() + 3,
{
    let s = shown_ports(config);
    assert(s[0] == (config.http_port, config.http_port));
    assert(s[1] == (config.https_port, config.https_port));
    assert(s[2] == (config.api_port, config.api_port));
    if config.additional_ports@.contains(x) {
        let i = choose|i: int|
            0 <= i < config.additional_ports@.len() && config.additional_ports@[i] == x;
        assert(s[i + 3] == x);
    }
    if s.contains(x) {
        let i = choose|i: int| 0 <= i < s.len() && s[i] == x;
        if i >= 3 {
            assert(config.additional_ports@[i - 3] == x);
        }
    }
}

/// A command that was found a pod is written into the shell of that pod, now or when there is one:
/// never into the shell of another.
pub proof fn law_commands_reach_their_pod(
    old: AppState,
    pod: PodRef,
    container: String,
    workdir: String,
    command: String,
    has_view: bool,
    config: ClusterConfig,
    host: Seq<char>,
    new: AppState,
    fx: Seq<EffectView>,
    line: Seq<char>,
)
    requires
        message_handled(
            old,
            AppMessage::ShellCommandPodResolved(pod, container, workdir, command, has_view),
            config,
            host,
            new,
            fx,
        ),
    ensures
        new.panel.shown == Some((pod, DetailTab::Shell)),
        fx.contains(EffectView::OpenPanel),
        fx.contains(EffectView::WriteShell(line)) ==> old.panel.session is Some && same_pod(
            old.panel.session->0,
            pod,
        ) && line == in_directory(workdir@, command@) + "\n"@,
        old.panel.session is Some && same_pod(old.panel.session->0, pod) ==> fx.contains(
            EffectView::WriteShell(in_directory(workdir@, command@) + "\n"@),
        ) && new.panel.session == old.panel.session && new.input.mode == AppMode::Shell,
        !(old.panel.session is Some && same_pod(old.panel.session->0, pod))
            ==> new.pending_shell_command is Some && new.pending_shell_command->0@ == in_directory(
            workdir@,
            command@,
        ) + "\n"@ && new.panel.session is None,
        old.panel.session is Some && !same_pod(old.panel.session->0, pod) ==> fx.contains(
            EffectView::CloseSession,
        ),
{
    let i = pod_index(old.pods@, pod.name@);
    let o: int = if i < old.pods@.len() {
        1
    } else {
        0
    };
    assert(fx[o] == EffectView::OpenPanel);
    if old.panel.session is Some && same_pod(old.panel.session->0, pod) {
        assert(fx[fx.len() - 2] == EffectView::WriteShell(
            in_directory(workdir@, command@) + "\n"@,
        ));
    } else if old.panel.session is Some {
        assert(fx[o + 1] == EffectView::CloseSession);
    }
}

/// A session that arrives for a shell that is not shown is closed; one for the shell that is shown is
/// kept, and gets the command that waited for it.
pub proof fn law_sessions_are_for_the_shell_shown(
    old: AppState,
    pod: PodRef,
    config: ClusterConfig,
    host: Seq<char>,
    new: AppState,
    fx: Seq<EffectView>,
)
    requires
        message_handled(old, AppMessage::ShellSessionReady(pod), config, host, new, fx),
    ensures
        fx.contains(EffectView::CloseHandle) <==> !(old.panel.shown is Some && (old.panel.shown->0).1
            == DetailTab::Shell && (old.panel.shown->0).0.name@ == pod.name@),
        fx.contains(EffectView::CloseHandle) ==> new == old,
        fx.contains(EffectView::CloseHandle) || new.panel.session == Some(pod),
        !fx.contains(EffectView::CloseHandle) && old.pending_shell_command is Some ==> fx.contains(
            EffectView::WriteShell(old.pending_shell_command->0@),
        ) && new.pending_shell_command is None,
{
    if !shows_shell_of(old.panel, pod.name@) {
        assert(fx[0] == EffectView::CloseHandle);
    } else if old.pending_shell_command is Some {
        assert(fx[1] == EffectView::WriteShell(old.pending_shell_command->0@));
    }
}

/// A session that ends leaves no session and no command behind, and the shell is left.
pub proof fn law_ended_sessions_leave_nothing(
    old: AppState,
    error: Option<String>,
    config: ClusterConfig,
    host: Seq<char>,
    new: AppState,
    fx: Seq<EffectView>,
)
    requires
        message_handled(old, AppMessage::ShellSessionEnded(error), config, host, new, fx),
    ensures
        new.panel.session is None,
        new.pending_shell_command is None,
        new.input.mode != AppMode::Shell,
        new.panel.shown == old.panel.shown,
        error is Some ==> fx.contains(EffectView::ShellError(error->0@)),
        error is None ==> fx.contains(EffectView::ShellDisconnected),
        fx.contains(EffectView::ShellInteractive(false)),
{
    assert(fx[0] == EffectView::ShellInteractive(false));
    assert(fx.contains(fx[1]));
    assert(new.input@.mode == new.input.mode);
}

/// Whatever is new of pods, the list is shown again, and architectures that are not known are asked for
/// once.
pub proof fn law_lists_of_pods_are_shown_again(
    host: Seq<char>,
    was_pending: bool,
    new: AppState,
    fx: Seq<EffectView>,
)
    requires
        pods_refreshed(host, was_pending, new, fx),
    ensures
        fx.contains(EffectView::ShowPods) && fx.contains(EffectView::SyncPanel),
        fx.contains(EffectView::CheckArchitectures) <==> !was_pending && exists|i: int|
            0 <= i < new.running@.len() && lookup(
                new.arch@,
                (#[trigger] new.running@[i]).namespace@ + "/"@ + new.running@[i].name@,
            ) is None,
        fx.contains(EffectView::CheckArchitectures) || was_pending <==> new.arch_check_pending,
        stat_views(new.pods@) == merged_pods(
            new.running@,
            new.pending@,
            new.progress@,
            new.arch@,
            host,
        ),
{
    assert(fx[fx.len() - 1] == EffectView::SyncPanel);
    assert(fx[fx.len() - 2] == EffectView::ShowPods);
    if fx.len() == 3 {
        assert(fx[0] == EffectView::CheckArchitectures);
    }
    if arch_unknown(new.running@, new.arch@) {
        let i = choose|i: int|
            0 <= i < new.running@.len() && lookup(
                new.arch@,
                crate::app::pods::arch_key(
                    (#[trigger] new.running@[i]).namespace@,
                    new.running@[i].name@,
                ),
            ) is None;
        assert(lookup(new.arch@, new.running@[i].namespace@ + "/"@ + new.running@[i].name@) is None);
    }
}

} // verus!
