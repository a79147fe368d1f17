//! The list of pods: those that run, and those that wait for something.

use vstd::prelude::*;
use crate::cluster::docker::pull_progress::{PullFigures, PullPhase};
use crate::order::{insert_ranked, lemma_ranked_map, pair_before, ranked, HasRank, Ranked};
use crate::text::{
    chars_of, last_index_of, lemma_last_index_of, rfind_char, same, string_of_range,
};
use crate::textmap::{lookup, TextMap};

verus! {

/// A pod with running containers. Its usage figures are held by the caller, under its index.
#[derive(Debug, Clone)]
pub struct RunningPod {
    pub name: String,
    pub namespace: String,
    pub status: String,
}

/// A container that waits, and why.
#[derive(Debug, Clone)]
pub struct PendingContainer {
    pub name: String,
    pub image: String,
    pub reason: String,
}

/// A pod that waits, since the given time.
#[derive(Debug)]
pub struct PendingPod {
    pub name: String,
    pub namespace: String,
    pub containers: Vec<PendingContainer>,
    pub started_at: Option<i64>,
}

/// The pull of one container's image.
#[derive(Debug, Clone)]
pub struct ContainerPullInfo {
    pub name: String,
    pub image: String,
    pub downloaded_bytes: u64,
    pub total_bytes: u64,
    pub tracking_available: bool,
    pub phase: PullPhase,
    pub layers_done: u16,
    pub layers_total: u16,
}

/// What a pod does.
#[derive(Debug)]
pub enum PodState {
    Running,
    Pulling { containers: Vec<ContainerPullInfo>, started_at: Option<i64> },
    Waiting { reason: String },
    Failed { reason: String },
}

/// A line of the pod list. `usage` is the index of the running pod whose figures it shows.
#[derive(Debug)]
pub struct PodStat {
    pub name: String,
    pub namespace: String,
    pub state: PodState,
    pub usage: Option<usize>,
    pub status: String,
    pub arch_mismatch: bool,
}

// ---------------------------------------------------------------------------
// Models
// ---------------------------------------------------------------------------

/// The model of [`ContainerPullInfo`].
pub struct PullInfoView {
    pub name: Seq<char>,
    pub image: Seq<char>,
    pub downloaded_bytes: u64,
    pub total_bytes: u64,
    pub tracking_available: bool,
    pub phase: PullPhase,
    pub layers_done: u16,
    pub layers_total: u16,
}

/// The model of [`PodState`].
pub enum PodStateView {
    Running,
    Pulling(Seq<PullInfoView>, Option<i64>),
    Waiting(Seq<char>),
    Failed(Seq<char>),
}

/// The model of [`PodStat`].
pub struct PodStatView {
    pub name: Seq<char>,
    pub namespace: Seq<char>,
    pub state: PodStateView,
    pub usage: Option<usize>,
    pub status: Seq<char>,
    pub arch_mismatch: bool,
}

impl View for ContainerPullInfo {
    type V = PullInfoView;

    open spec fn view(&self) -> PullInfoView {
        PullInfoView {
            name: self.name@,
            image: self.image@,
            downloaded_bytes: self.downloaded_bytes,
            total_bytes: self.total_bytes,
            tracking_available: self.tracking_available,
            phase: self.phase,
            layers_done: self.layers_done,
            layers_total: self.layers_total,
        }
    }
}

/// The models of a list of pulls.
pub open spec fn pull_views(v: Seq<ContainerPullInfo>) -> Seq<PullInfoView> {
    Seq::new(v.len(), |i: int| v[i]@)
}

impl View for PodState {
    type V = PodStateView;

    open spec fn view(&self) -> PodStateView {
        match *self {
            PodState::Running => PodStateView::Running,
            PodState::Pulling { containers, started_at } => PodStateView::Pulling(
                pull_views(containers@),
                started_at,
            ),
            PodState::Waiting { reason } => PodStateView::Waiting(reason@),
            PodState::Failed { reason } => PodStateView::Failed(reason@),
        }
    }
}

impl View for PodStat {
    type V = PodStatView;

    open spec fn view(&self) -> PodStatView {
        PodStatView {
            name: self.name@,
            namespace: self.namespace@,
            state: self.state@,
            usage: self.usage,
            status: self.status@,
            arch_mismatch: self.arch_mismatch,
        }
    }
}

/// The models of a list of pods.
pub open spec fn stat_views(v: Seq<PodStat>) -> Seq<PodStatView> {
    Seq::new(v.len(), |i: int| v[i]@)
}

impl HasRank for PodStatView {
    open spec fn rank(&self) -> Seq<Seq<char>> {
        seq![self.namespace, self.name]
    }
}

impl HasRank for PodStat {
    open spec fn rank(&self) -> Seq<Seq<char>> {
        seq![self.namespace@, self.name@]
    }
}

impl Ranked for PodStat {
    fn ranks_before(&self, other: &Self) -> (r: bool) {
        pair_before(
            self.namespace.as_str(),
            self.name.as_str(),
            other.namespace.as_str(),
            other.name.as_str(),
        )
    }
}

/// The pulls in progress, by image.
pub type Progress = Seq<(Seq<char>, PullFigures)>;

/// Whether a waiting reason means that an image is being pulled.
pub open spec fn means_pulling(reason: Seq<char>) -> bool {
    reason == "ContainerCreating"@ || reason == "PodInitializing"@
}

/// Whether a waiting reason means that something went wrong.
pub open spec fn means_failed(reason: Seq<char>) -> bool {
    reason == "ImagePullBackOff"@ || reason == "ErrImagePull"@ || reason == "InvalidImageName"@
        || reason == "CrashLoopBackOff"@ || reason == "Error"@ || reason == "Failed"@
}

/// The last part of an image name.
pub open spec fn short_image(image: Seq<char>) -> Seq<char> {
    image.skip(last_index_of(image, '/') + 1)
}

/// What is shown of a container whose image is being pulled.
pub open spec fn pull_info(c: PendingContainer, progress: Progress) -> PullInfoView {
    let none = PullInfoView {
        name: c.name@,
        image: c.image@,
        downloaded_bytes: 0,
        total_bytes: 0,
        tracking_available: false,
        phase: PullPhase::Downloading,
        layers_done: 0,
        layers_total: 0,
    };
    match lookup(progress, c.image@) {
        None => none,
        Some(p) => {
            let counted = PullInfoView {
                layers_done: p.layers_done,
                layers_total: p.layers_total,
                phase: p.phase,
                ..none
            };
            if p.tracking_available {
                PullInfoView {
                    downloaded_bytes: p.downloaded_bytes,
                    total_bytes: p.total_bytes,
                    tracking_available: p.total_bytes > 0,
                    ..counted
                }
            } else {
                counted
            }
        },
    }
}

/// The pulls of a pod's containers.
pub open spec fn pulls_of(containers: Seq<PendingContainer>, progress: Progress) -> Seq<PullInfoView>
    decreases containers.len(),
{
    if containers.len() == 0 {
        Seq::empty()
    } else {
        let rest = pulls_of(containers.drop_last(), progress);
        if means_pulling(containers.last().reason@) {
            rest.push(pull_info(containers.last(), progress))
        } else {
            rest
        }
    }
}

/// The index of the first container that failed, or the length.
pub open spec fn failed_index(containers: Seq<PendingContainer>) -> int
    decreases containers.len(),
{
    if containers.len() == 0 || means_failed(containers[0].reason@) {
        0
    } else {
        1 + failed_index(containers.skip(1))
    }
}

/// What a waiting pod does: a failed container decides, then pulls, then the first container.
pub open spec fn waiting_state(p: PendingPod, progress: Progress) -> PodStateView {
    let cs = p.containers@;
    let f = failed_index(cs);
    let pulls = pulls_of(cs, progress);
    if f < cs.len() {
        PodStateView::Failed(cs[f].reason@ + ": "@ + short_image(cs[f].image@))
    } else if pulls.len() > 0 {
        PodStateView::Pulling(pulls, p.started_at)
    } else if cs.len() > 0 {
        PodStateView::Waiting(cs[0].reason@)
    } else {
        PodStateView::Waiting("Pending"@)
    }
}

/// The key of a pod's architecture.
pub open spec fn arch_key(namespace: Seq<char>, name: Seq<char>) -> Seq<char> {
    namespace + "/"@ + name
}

/// Whether a pod's image is known to be for another architecture.
pub open spec fn arch_mismatched(
    arch: Seq<(Seq<char>, String)>,
    host: Seq<char>,
    namespace: Seq<char>,
    name: Seq<char>,
) -> bool {
    match lookup(arch, arch_key(namespace, name)) {
        Some(a) => a@ != host,
        None => false,
    }
}

/// The line of a running pod.
pub open spec fn running_row(
    p: RunningPod,
    i: int,
    arch: Seq<(Seq<char>, String)>,
    host: Seq<char>,
) -> PodStatView {
    PodStatView {
        name: p.name@,
        namespace: p.namespace@,
        state: PodStateView::Running,
        usage: Some(i as usize),
        status: p.status@,
        arch_mismatch: arch_mismatched(arch, host, p.namespace@, p.name@),
    }
}

/// The line of a waiting pod.
pub open spec fn pending_row(p: PendingPod, progress: Progress) -> PodStatView {
    PodStatView {
        name: p.name@,
        namespace: p.namespace@,
        state: waiting_state(p, progress),
        usage: None,
        status: "Pending"@,
        arch_mismatch: false,
    }
}

/// Whether a pod of this name runs.
pub open spec fn runs(running: Seq<RunningPod>, name: Seq<char>) -> bool {
    exists|i: int| 0 <= i < running.len() && (#[trigger] running[i]).name@ == name
}

/// The lines of the running pods.
pub open spec fn running_rows(
    running: Seq<RunningPod>,
    arch: Seq<(Seq<char>, String)>,
    host: Seq<char>,
) -> Seq<PodStatView> {
    Seq::new(running.len(), |i: int| running_row(running[i], i, arch, host))
}

/// The lines of the waiting pods that do not run.
pub open spec fn pending_rows(
    pending: Seq<PendingPod>,
    running: Seq<RunningPod>,
    progress: Progress,
) -> Seq<PodStatView>
    decreases pending.len(),
{
    if pending.len() == 0 {
        Seq::empty()
    } else {
        let rest = pending_rows(pending.drop_last(), running, progress);
        if runs(running, pending.last().name@) {
            rest
        } else {
            rest.push(pending_row(pending.last(), progress))
        }
    }
}

/// The whole list, by namespace and name.
pub open spec fn merged_pods(
    running: Seq<RunningPod>,
    pending: Seq<PendingPod>,
    progress: Progress,
    arch: Seq<(Seq<char>, String)>,
    host: Seq<char>,
) -> Seq<PodStatView> {
    ranked(running_rows(running, arch, host) + pending_rows(pending, running, progress))
}

/// Whether the architecture of some running pod is not known.
pub open spec fn arch_unknown(running: Seq<RunningPod>, arch: Seq<(Seq<char>, String)>) -> bool {
    exists|i: int|
        0 <= i < running.len() && lookup(
            arch,
            arch_key((#[trigger] running[i]).namespace@, running[i].name@),
        ) is None
}

// ---------------------------------------------------------------------------
// Functions
// ---------------------------------------------------------------------------

/// Whether a waiting reason means that an image is being pulled.
pub fn is_pulling(reason: &str) -> (r: bool)
    ensures
        r == means_pulling(reason@),
{
    same(reason, "ContainerCreating") || same(reason, "PodInitializing")
}

fn is_failed(reason: &str) -> (r: bool)
    ensures
        r == means_failed(reason@),
{
    same(reason, "ImagePullBackOff") || same(reason, "ErrImagePull") || same(
        reason,
        "InvalidImageName",
    ) || same(reason, "CrashLoopBackOff") || same(reason, "Error") || same(reason, "Failed")
}

fn short_image_name(image: &str) -> (r: String)
    ensures
        r@ == short_image(image@),
{
    let v = chars_of(image);
    let n: usize = v.len();
    proof {
        lemma_last_index_of(v@, '/');
    }
    match rfind_char(&v, '/') {
        Some(i) => {
            assert(v@.subrange(i + 1, n as int) =~= v@.skip(i + 1));
            string_of_range(&v, i + 1, n)
        },
        None => {
            assert(v@.skip(0) =~= v@);
            image.to_owned()
        },
    }
}

fn pull_of(c: &PendingContainer, progress: &TextMap<PullFigures>) -> (r: ContainerPullInfo)
    ensures
        r@ == pull_info(*c, progress@),
{
    let mut info = ContainerPullInfo {
        name: c.name.clone(),
        image: c.image.clone(),
        downloaded_bytes: 0,
        total_bytes: 0,
        tracking_available: false,
        phase: PullPhase::Downloading,
        layers_done: 0,
        layers_total: 0,
    };
    if let Some(p) = progress.get(c.image.as_str()) {
        if p.tracking_available {
            info.downloaded_bytes = p.downloaded_bytes;
            info.total_bytes = p.total_bytes;
            info.tracking_available = p.total_bytes > 0;
        }
        info.layers_done = p.layers_done;
        info.layers_total = p.layers_total;
        info.phase = p.phase;
    }
    info
}

fn state_of(p: &PendingPod, progress: &TextMap<PullFigures>) -> (r: PodState)
    ensures
        r@ == waiting_state(*p, progress@),
{
    let cs = &p.containers;
    let mut i: usize = 0;
    let mut pulls: Vec<ContainerPullInfo> = Vec::new();
    assert(cs@.skip(0) =~= cs@);
    assert(cs@.take(0) =~= Seq::<PendingContainer>::empty());
    while i < cs.len() && !is_failed(cs[i].reason.as_str())
        invariant
            i <= cs@.len(),
            failed_index(cs@) == i + failed_index(cs@.skip(i as int)),
            pull_views(pulls@) =~= pulls_of(cs@.take(i as int), progress@),
        decreases cs@.len() - i,
    {
        assert(cs@.skip(i as int)[0] == cs@[i as int]);
        assert(cs@.skip(i as int).skip(1) =~= cs@.skip(i + 1));
        assert(cs@.take(i + 1).drop_last() =~= cs@.take(i as int));
        if is_pulling(cs[i].reason.as_str()) {
            let ghost before = pull_views(pulls@);
            let info = pull_of(&cs[i], progress);
            let ghost shown = info@;
            pulls.push(info);
            assert(pull_views(pulls@) =~= before.push(shown));
        }
        i = i + 1;
    }
    assert(i < cs@.len() ==> cs@.skip(i as int)[0] == cs@[i as int]);
    if i < cs.len() {
        let mut reason = cs[i].reason.clone();
        reason.append(": ");
        reason.append(short_image_name(cs[i].image.as_str()).as_str());
        return PodState::Failed { reason };
    }
    assert(cs@.take(i as int) =~= cs@);
    assert(pull_views(pulls@).len() == pulls@.len());
    if pulls.len() > 0 {
        PodState::Pulling { containers: pulls, started_at: p.started_at }
    } else if cs.len() > 0 {
        PodState::Waiting { reason: cs[0].reason.clone() }
    } else {
        PodState::Waiting { reason: "Pending".to_owned() }
    }
}

/// The key of a pod's architecture.
pub fn pod_key(namespace: &str, name: &str) -> (r: String)
    ensures
        r@ == arch_key(namespace@, name@),
{
    let mut s = namespace.to_owned();
    s.append("/");
    s.append(name);
    s
}

/// Whether a pod's image is known to be for another architecture than the host's.
pub fn is_arch_mismatch(arch: &TextMap<String>, host: &str, namespace: &str, name: &str) -> (r: bool)
    ensures
        r == arch_mismatched(arch@, host@, namespace@, name@),
{
    let key = pod_key(namespace, name);
    match arch.get(key.as_str()) {
        Some(a) => !same(a.as_str(), host),
        None => false,
    }
}

fn name_runs(running: &Vec<RunningPod>, name: &str) -> (r: bool)
    ensures
        r == runs(running@, name@),
{
    let mut i: usize = 0;
    while i < running.len()
        invariant
            i <= running@.len(),
            forall|j: int| 0 <= j < i ==> (#[trigger] running@[j]).name@ != name@,
        decreases running@.len() - i,
    {
        if same(running[i].name.as_str(), name) {
            return true;
        }
        i = i + 1;
    }
    false
}

/// Whether the architecture of some running pod is not known.
pub fn has_unknown_arch(running: &Vec<RunningPod>, arch: &TextMap<String>) -> (r: bool)
    ensures
        r == arch_unknown(running@, arch@),
{
    let mut i: usize = 0;
    while i < running.len()
        invariant
            i <= running@.len(),
            forall|j: int|
                0 <= j < i ==> lookup(
                    arch@,
                    arch_key((#[trigger] running@[j]).namespace@, running@[j].name@),
                ) is Some,
        decreases running@.len() - i,
    {
        let key = pod_key(running[i].namespace.as_str(), running[i].name.as_str());
        if !arch.contains_key(key.as_str()) {
            assert(lookup(arch@, arch_key(running@[i as int].namespace@, running@[i as int].name@))
                is None);
            return true;
        }
        i = i + 1;
    }
    false
}

/// The list of pods: the running ones with their figures, then the waiting ones that do not run,
/// in the order of namespace and name.
pub fn merge_pods(
    running: &Vec<RunningPod>,
    pending: &Vec<PendingPod>,
    progress: &TextMap<PullFigures>,
    arch: &TextMap<String>,
    host: &str,
) -> (r: Vec<PodStat>)
    ensures
        stat_views(r@) == merged_pods(running@, pending@, progress@, arch@, host@),
{
    let mut out: Vec<PodStat> = Vec::new();
    let ghost mut rows: Seq<PodStat> = Seq::empty();
    let ghost first = running_rows(running@, arch@, host@);
    let mut i: usize = 0;
    assert(stat_views(rows) =~= first.take(0));
    while i < running.len()
        invariant
            i <= running@.len(),
            first == running_rows(running@, arch@, host@),
            stat_views(rows) == first.take(i as int),
            out@ == ranked(rows),
        decreases running@.len() - i,
    {
        let p = &running[i];
        let row = PodStat {
            name: p.name.clone(),
            namespace: p.namespace.clone(),
            state: PodState::Running,
            usage: Some(i),
            status: p.status.clone(),
            arch_mismatch: is_arch_mismatch(arch, host, p.namespace.as_str(), p.name.as_str()),
        };
        proof {
            assert(rows.push(row).drop_last() =~= rows);
            assert(stat_views(rows.push(row)) =~= stat_views(rows).push(row@));
            assert(first.take(i + 1) =~= first.take(i as int).push(first[i as int]));
            rows = rows.push(row);
        }
        insert_ranked(&mut out, row);
        i = i + 1;
    }
    assert(first.take(i as int) =~= first);
    let mut k: usize = 0;
    assert(first + pending_rows(pending@.take(0), running@, progress@) =~= first);
    while k < pending.len()
        invariant
            k <= pending@.len(),
            stat_views(rows) == first + pending_rows(
                pending@.take(k as int),
                running@,
                progress@,
            ),
            out@ == ranked(rows),
        decreases pending@.len() - k,
    {
        let p = &pending[k];
        assert(pending@.take(k + 1).drop_last() =~= pending@.take(k as int));
        if !name_runs(running, p.name.as_str()) {
            let row = PodStat {
                name: p.name.clone(),
                namespace: p.namespace.clone(),
                state: state_of(p, progress),
                usage: None,
                status: "Pending".to_owned(),
                arch_mismatch: false,
            };
            proof {
                assert(rows.push(row).drop_last() =~= rows);
                assert(stat_views(rows.push(row)) =~= stat_views(rows).push(row@));
                let old_rows = pending_rows(pending@.take(k as int), running@, progress@);
                assert((first + old_rows).push(row@) =~= first + old_rows.push(row@));
                rows = rows.push(row);
            }
            insert_ranked(&mut out, row);
        }
        k = k + 1;
    }
    assert(pending@.take(k as int) =~= pending@);
    proof {
        let f = |x: PodStat| x@;
        assert(stat_views(rows) =~= rows.map_values(f));
        assert(stat_views(out@) =~= out@.map_values(f));
        lemma_ranked_map(rows, f);
    }
    out
}

// ---------------------------------------------------------------------------
// Laws
// ---------------------------------------------------------------------------

/// The list is in the order of namespace and name, and holds every running pod once, with its
/// own figures, and no waiting line for a name that runs.
pub proof fn law_merged_pods(
    running: Seq<RunningPod>,
    pending: Seq<PendingPod>,
    progress: Progress,
    arch: Seq<(Seq<char>, String)>,
    host: Seq<char>,
)
    ensures
        crate::order::in_order(merged_pods(running, pending, progress, arch, host)),
        merged_pods(running, pending, progress, arch, host).to_multiset() == (running_rows(
            running,
            arch,
            host,
        ) + pending_rows(pending, running, progress)).to_multiset(),
        forall|i: int|
            0 <= i < pending_rows(pending, running, progress).len() ==> !runs(
                running,
                (#[trigger] pending_rows(pending, running, progress)[i]).name,
            ),
{
    crate::order::law_sorting(
        running_rows(running, arch, host) + pending_rows(pending, running, progress),
    );
    lemma_pending_rows_do_not_run(pending, running, progress);
}

proof fn lemma_pending_rows_do_not_run(
    pending: Seq<PendingPod>,
    running: Seq<RunningPod>,
    progress: Progress,
)
    ensures
        forall|i: int|
            0 <= i < pending_rows(pending, running, progress).len() ==> !runs(
                running,
                (#[trigger] pending_rows(pending, running, progress)[i]).name,
            ),
    decreases pending.len(),
{
    if pending.len() > 0 {
        lemma_pending_rows_do_not_run(pending.drop_last(), running, progress);
        let rest = pending_rows(pending.drop_last(), running, progress);
        let all = pending_rows(pending, running, progress);
        assert forall|i: int| 0 <= i < all.len() implies !runs(running, (#[trigger] all[i]).name) by {
            if i < rest.len() {
                assert(all[i] == rest[i]);
            }
        }
    }
}

/// Every running pod has its line, with its own figures, and is marked where its image is known to be
/// for another machine.
pub proof fn law_running_pods_are_listed(
    running: Seq<RunningPod>,
    pending: Seq<PendingPod>,
    progress: Progress,
    arch: Seq<(Seq<char>, String)>,
    host: Seq<char>,
    i: int,
)
    requires
        0 <= i < running.len() <= usize::MAX,
    ensures
        exists|j: int|
            {
                &&& 0 <= j < merged_pods(running, pending, progress, arch, host).len()
                &&& (#[trigger] merged_pods(running, pending, progress, arch, host)[j]).name
                    == running[i].name@
                &&& merged_pods(running, pending, progress, arch, host)[j].namespace
                    == running[i].namespace@
                &&& merged_pods(running, pending, progress, arch, host)[j].status
                    == running[i].status@
                &&& merged_pods(running, pending, progress, arch, host)[j].state
                    == PodStateView::Running
                &&& merged_pods(running, pending, progress, arch, host)[j].usage matches Some(u) && u
                    == i
                &&& merged_pods(running, pending, progress, arch, host)[j].arch_mismatch <==> (lookup(
                    arch,
                    running[i].namespace@ + "/"@ + running[i].name@,
                ) matches Some(a) && a@ != host)
            },
        merged_pods(running, pending, progress, arch, host).len() == running.len() + pending_rows(
            pending,
            running,
            progress,
        ).len(),
{
    let rows = running_rows(running, arch, host) + pending_rows(pending, running, progress);
    let m = merged_pods(running, pending, progress, arch, host);
    let x = running_row(running[i], i, arch, host);
    assert(rows[i] == x);
    crate::order::lemma_ranked_contains(rows, x);
    crate::order::law_sorting(rows);
    let j = choose|j: int| 0 <= j < m.len() && m[j] == x;
    assert(m[j].name == running[i].name@);
}

/// A pod that waits has a line if and only if none of its name runs, and every line is one of a pod that
/// runs or waits.
pub proof fn law_waiting_pods_are_listed(
    running: Seq<RunningPod>,
    pending: Seq<PendingPod>,
    progress: Progress,
    arch: Seq<(Seq<char>, String)>,
    host: Seq<char>,
    x: PodStatView,
)
    requires
        x.usage is None,
    ensures
        merged_pods(running, pending, progress, arch, host).contains(x) <==> exists|i: int|
            {
                &&& 0 <= i < pending.len()
                &&& x.name == (#[trigger] pending[i]).name@
                &&& x.namespace == pending[i].namespace@
                &&& x.state == waiting_state(pending[i], progress)
                &&& x.status == "Pending"@
                &&& !x.arch_mismatch
                &&& forall|j: int| 0 <= j < running.len() ==> (#[trigger] running[j]).name@ != x.name
            },
{
    let a = running_rows(running, arch, host);
    let b = pending_rows(pending, running, progress);
    let rows = a + b;
    crate::order::lemma_ranked_contains(rows, x);
    lemma_pending_row(pending, running, progress, x);
    if rows.contains(x) {
        let i = choose|i: int| 0 <= i < rows.len() && rows[i] == x;
        assert(i >= a.len());
        assert(b[i - a.len()] == x);
    }
    if b.contains(x) {
        let i = choose|i: int| 0 <= i < b.len() && b[i] == x;
        assert(rows[a.len() + i] == x);
    }
    if exists|i: int|
        {
            &&& 0 <= i < pending.len()
            &&& x.name == (#[trigger] pending[i]).name@
            &&& x.namespace == pending[i].namespace@
            &&& x.state == waiting_state(pending[i], progress)
            &&& x.status == "Pending"@
            &&& !x.arch_mismatch
            &&& forall|j: int| 0 <= j < running.len() ==> (#[trigger] running[j]).name@ != x.name
        } {
        let i = choose|i: int|
            {
                &&& 0 <= i < pending.len()
                &&& x.name == (#[trigger] pending[i]).name@
                &&& x.namespace == pending[i].namespace@
                &&& x.state == waiting_state(pending[i], progress)
                &&& x.status == "Pending"@
                &&& !x.arch_mismatch
                &&& forall|j: int| 0 <= j < running.len() ==> (#[trigger] running[j]).name@ != x.name
            };
        assert(x == pending_row(pending[i], progress));
        assert(!runs(running, pending[i].name@));
    }
}

proof fn lemma_pending_row(
    pending: Seq<PendingPod>,
    running: Seq<RunningPod>,
    progress: Progress,
    x: PodStatView,
)
    ensures
        pending_rows(pending, running, progress).contains(x) <==> exists|i: int|
            0 <= i < pending.len() && x == pending_row(#[trigger] pending[i], progress) && !runs(
                running,
                pending[i].name@,
            ),
    decreases pending.len(),
{
    if pending.len() > 0 {
        let d = pending.drop_last();
        let r = pending_rows(d, running, progress);
        let y = pending_row(pending.last(), progress);
        let t = r.push(y);
        lemma_pending_row(d, running, progress, x);
        assert(t[r.len() as int] == y);
        assert(pending[pending.len() - 1] == pending.last());
        if r.contains(x) {
            let i = choose|i: int|
                0 <= i < d.len() && x == pending_row(#[trigger] d[i], progress) && !runs(
                    running,
                    d[i].name@,
                );
            assert(pending[i] == d[i]);
            let j = choose|j: int| 0 <= j < r.len() && r[j] == x;
            assert(t[j] == x);
        }
        if t.contains(x) && x != y {
            let j = choose|j: int| 0 <= j < t.len() && t[j] == x;
            assert(r[j] == x);
        }
        if exists|i: int|
            0 <= i < pending.len() && x == pending_row(#[trigger] pending[i], progress) && !runs(
                running,
                pending[i].name@,
            ) {
            let i = choose|i: int|
                0 <= i < pending.len() && x == pending_row(#[trigger] pending[i], progress) && !runs(
                    running,
                    pending[i].name@,
                );
            if i < d.len() {
                assert(d[i] == pending[i]);
            }
        }
    }
}

/// A pod with a failed container has failed, and says why; one without is pulling where an image is
/// being pulled for it; any other waits.
pub proof fn law_failures_show_first(p: PendingPod, progress: Progress)
    ensures
        waiting_state(p, progress) is Failed <==> exists|i: int|
            0 <= i < p.containers@.len() && means_failed((#[trigger] p.containers@[i]).reason@),
        waiting_state(p, progress) is Pulling <==> !(waiting_state(p, progress) is Failed) && exists|
            i: int,
        |
            0 <= i < p.containers@.len() && means_pulling((#[trigger] p.containers@[i]).reason@),
        waiting_state(p, progress) matches PodStateView::Pulling(v, since) ==> since == p.started_at
            && v == pulls_of(p.containers@, progress),
        waiting_state(p, progress) matches PodStateView::Failed(text) ==> exists|i: int|
            0 <= i < p.containers@.len() && means_failed((#[trigger] p.containers@[i]).reason@) && text
                == p.containers@[i].reason@ + ": "@ + short_image(p.containers@[i].image@),
        waiting_state(p, progress) matches PodStateView::Waiting(text) ==> if p.containers@.len() > 0 {
            text == p.containers@[0].reason@
        } else {
            text == "Pending"@
        },
{
    let cs = p.containers@;
    lemma_failed_index(cs);
    if exists|i: int| 0 <= i < cs.len() && means_pulling((#[trigger] cs[i]).reason@) {
        let i = choose|i: int| 0 <= i < cs.len() && means_pulling((#[trigger] cs[i]).reason@);
        law_pulls_are_shown(cs, progress, pull_info(cs[i], progress));
    }
    if pulls_of(cs, progress).len() > 0 {
        law_pulls_are_shown(cs, progress, pulls_of(cs, progress)[0]);
        assert(pulls_of(cs, progress).contains(pulls_of(cs, progress)[0]));
    }
}

proof fn lemma_failed_index(cs: Seq<PendingContainer>)
    ensures
        0 <= failed_index(cs) <= cs.len(),
        failed_index(cs) < cs.len() ==> means_failed(cs[failed_index(cs)].reason@),
        forall|i: int| 0 <= i < failed_index(cs) ==> !means_failed((#[trigger] cs[i]).reason@),
    decreases cs.len(),
{
    if cs.len() > 0 && !means_failed(cs[0].reason@) {
        let r = cs.skip(1);
        lemma_failed_index(r);
        let f = failed_index(r);
        if f < r.len() {
            assert(r[f] == cs[f + 1]);
        }
        assert forall|i: int| 0 <= i < f + 1 implies !means_failed((#[trigger] cs[i]).reason@) by {
            if i > 0 {
                assert(r[i - 1] == cs[i]);
            }
        }
    }
}

/// The pulls of a pod are those of its containers that are being created, each with the figures of its
/// own image.
pub proof fn law_pulls_are_shown(cs: Seq<PendingContainer>, progress: Progress, x: PullInfoView)
    ensures
        pulls_of(cs, progress).contains(x) <==> exists|i: int|
            0 <= i < cs.len() && means_pulling((#[trigger] cs[i]).reason@) && x == pull_info(
                cs[i],
                progress,
            ),
    decreases cs.len(),
{
    if cs.len() > 0 {
        let d = cs.drop_last();
        let r = pulls_of(d, progress);
        let y = pull_info(cs.last(), progress);
        let t = r.push(y);
        law_pulls_are_shown(d, progress, x);
        assert(t[r.len() as int] == y);
        assert(cs[cs.len() - 1] == cs.last());
        if r.contains(x) {
            let i = choose|i: int|
                0 <= i < d.len() && means_pulling((#[trigger] d[i]).reason@) && x == pull_info(
                    d[i],
                    progress,
                );
            assert(cs[i] == d[i]);
            let j = choose|j: int| 0 <= j < r.len() && r[j] == x;
            assert(t[j] == x);
        }
        if t.contains(x) && x != y {
            let j = choose|j: int| 0 <= j < t.len() && t[j] == x;
            assert(r[j] == x);
        }
        if exists|i: int|
            0 <= i < cs.len() && means_pulling((#[trigger] cs[i]).reason@) && x == pull_info(
                cs[i],
                progress,
            ) {
            let i = choose|i: int|
                0 <= i < cs.len() && means_pulling((#[trigger] cs[i]).reason@) && x == pull_info(
                    cs[i],
                    progress,
                );
            if i < d.len() {
                assert(d[i] == cs[i]);
            }
        }
    }
}

/// What is shown of a pull are the figures of its image; bytes only where they are known, and nothing
/// at all where no pull of the image is known.
pub proof fn law_pulls_show_their_figures(c: PendingContainer, progress: Progress)
    ensures
        pull_info(c, progress).name == c.name@,
        pull_info(c, progress).image == c.image@,
        lookup(progress, c.image@) is None ==> pull_info(c, progress).layers_total == 0 && pull_info(
            c,
            progress,
        ).downloaded_bytes == 0 && !pull_info(c, progress).tracking_available,
        lookup(progress, c.image@) matches Some(p) ==> {
            let r = pull_info(c, progress);
            &&& r.layers_done == p.layers_done
            &&& r.layers_total == p.layers_total
            &&& r.phase == p.phase
            &&& r.tracking_available <==> p.tracking_available && p.total_bytes > 0
            &&& r.tracking_available ==> r.downloaded_bytes == p.downloaded_bytes && r.total_bytes
                == p.total_bytes
        },
{
}

/// Each reason that stands for a failure is taken for one and none that stands for a pull is, and the
/// other way round.
pub proof fn law_reasons_are_told_apart(reason: Seq<char>)
    ensures
        reason == "ImagePullBackOff"@ || reason == "ErrImagePull"@ || reason == "InvalidImageName"@
            || reason == "CrashLoopBackOff"@ || reason == "Error"@ || reason == "Failed"@
            ==> means_failed(reason),
        reason == "ContainerCreating"@ || reason == "PodInitializing"@ ==> means_pulling(reason),
        !(means_failed(reason) && means_pulling(reason)),
        reason.len() == 0 ==> !means_failed(reason) && !means_pulling(reason),
{
    reveal_strlit("ImagePullBackOff");
    reveal_strlit("ErrImagePull");
    reveal_strlit("InvalidImageName");
    reveal_strlit("CrashLoopBackOff");
    reveal_strlit("Error");
    reveal_strlit("Failed");
    reveal_strlit("ContainerCreating");
    reveal_strlit("PodInitializing");
    if means_failed(reason) && means_pulling(reason) {
        assert(reason[0] == 'I' || reason[0] == 'E' || reason[0] == 'C' || reason[0] == 'F');
        assert(reason[1] == 'o');
    }
}

/// The short name of an image is what follows its last slash.
pub proof fn law_short_names_have_no_slash(image: Seq<char>, head: Seq<char>, tail: Seq<char>)
    requires
        !tail.contains('/'),
    ensures
        image == head.push('/') + tail ==> short_image(image) == tail,
        image == tail ==> short_image(image) == tail,
{
    lemma_last_index_of(image, '/');
    let l = last_index_of(image, '/');
    if image == head.push('/') + tail {
        assert(image[head.len() as int] == '/');
        if l > head.len() {
            assert(tail[l - head.len() - 1] == image[l]);
        }
        assert(short_image(image) =~= tail);
    } else if image == tail {
        if l >= 0 {
            assert(tail[l] == '/');
        }
        assert(short_image(image) =~= tail);
    }
}

} // verus!
