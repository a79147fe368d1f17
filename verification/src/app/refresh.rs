//! Periodic refresh: what is due, what it asks for, and how answers are put together.

use vstd::prelude::*;
use crate::cluster::docker::volumes::VolumeStats;
use crate::app::messages::{still_pulling, AppState};
use crate::app::pods::{is_pulling, means_pulling, PendingContainer, PendingPod};
use crate::cluster::k3s::status::ClusterStatus;
use crate::order::{insert_ranked, lemma_ranked_map, pair_before, ranked, HasRank, Ranked};
use crate::text::{add_once, clone_all, joined_once, same, views, with_text};
use crate::textmap::{lookup, TextMap};

verus! {

// ---------------------------------------------------------------------------
// Scheduled tasks
// ---------------------------------------------------------------------------

/// A task of the scheduler.
#[derive(Debug, Clone, Copy, PartialEq, Eq, Structural)]
pub enum RefreshTask {
    BlinkToggle,
    IngressRefresh,
    HostsCheck,
    StatsRefresh,
    VolumeRefresh,
}

/// A background check.
#[derive(Debug, Clone, Copy, PartialEq, Eq, Structural)]
pub enum Check {
    ToggleBlink,
    IngressHealth,
    Ingress,
    PortForwards,
    MissingHosts,
    ResourceStats,
    PodStats,
    PendingPods,
    PullProgress,
    Logs,
    Volumes,
}

/// The checks that a task consists of. Logs are read again while they are shown.
pub open spec fn task_checks(t: RefreshTask, logs_shown: bool) -> Seq<Check> {
    match t {
        RefreshTask::BlinkToggle => seq![Check::ToggleBlink],
        RefreshTask::IngressRefresh => seq![Check::IngressHealth, Check::Ingress, Check::PortForwards],
        RefreshTask::HostsCheck => seq![Check::MissingHosts],
        RefreshTask::StatsRefresh => if logs_shown {
            seq![
                Check::ResourceStats,
                Check::PodStats,
                Check::PendingPods,
                Check::PullProgress,
                Check::Logs,
            ]
        } else {
            seq![Check::ResourceStats, Check::PodStats, Check::PendingPods, Check::PullProgress]
        },
        RefreshTask::VolumeRefresh => seq![Check::Volumes],
    }
}

/// The checks that a task consists of.
pub fn checks_of(t: RefreshTask, logs_shown: bool) -> (r: Vec<Check>)
    ensures
        r@ == task_checks(t, logs_shown),
{
    let mut v: Vec<Check> = Vec::new();
    match t {
        RefreshTask::BlinkToggle => v.push(Check::ToggleBlink),
        RefreshTask::IngressRefresh => {
            v.push(Check::IngressHealth);
            v.push(Check::Ingress);
            v.push(Check::PortForwards);
        },
        RefreshTask::HostsCheck => v.push(Check::MissingHosts),
        RefreshTask::StatsRefresh => {
            v.push(Check::ResourceStats);
            v.push(Check::PodStats);
            v.push(Check::PendingPods);
            v.push(Check::PullProgress);
            if logs_shown {
                v.push(Check::Logs);
            }
        },
        RefreshTask::VolumeRefresh => v.push(Check::Volumes),
    }
    assert(v@ =~= task_checks(t, logs_shown));
    v
}

/// What a check does now.
#[derive(Debug, Clone, Copy, PartialEq, Eq, Structural)]
pub enum CheckPlan {
    /// Nothing.
    Nothing,
    /// Report at once that there is nothing.
    ReportEmpty,
    /// Ask.
    Ask,
}

/// What a check does: without a running cluster, lists are reported empty and other checks do
/// nothing; so do checks that need Docker without it.
pub open spec fn check_plan(c: Check, running: bool, docker: bool, has_entries: bool) -> CheckPlan {
    match c {
        Check::PodStats => if running && docker {
            CheckPlan::Ask
        } else {
            CheckPlan::ReportEmpty
        },
        Check::PendingPods => if running {
            CheckPlan::Ask
        } else {
            CheckPlan::ReportEmpty
        },
        Check::PortForwards => if running {
            CheckPlan::Ask
        } else {
            CheckPlan::ReportEmpty
        },
        Check::PullProgress => if running && docker {
            CheckPlan::Ask
        } else {
            CheckPlan::Nothing
        },
        Check::Volumes => if running && docker {
            CheckPlan::Ask
        } else {
            CheckPlan::Nothing
        },
        Check::IngressHealth => if running && has_entries {
            CheckPlan::Ask
        } else {
            CheckPlan::Nothing
        },
        Check::Ingress => if running {
            CheckPlan::Ask
        } else {
            CheckPlan::Nothing
        },
        Check::MissingHosts => if running {
            CheckPlan::Ask
        } else {
            CheckPlan::Nothing
        },
        _ => CheckPlan::Ask,
    }
}

/// What a check does, given the cluster's status, whether Docker answers, and whether there are
/// ingress entries.
pub fn plan_check(c: Check, status: ClusterStatus, docker: bool, has_entries: bool) -> (r: CheckPlan)
    ensures
        r == check_plan(c, status == ClusterStatus::Running, docker, has_entries),
{
    let running = status == ClusterStatus::Running;
    match c {
        Check::PodStats => if running && docker {
            CheckPlan::Ask
        } else {
            CheckPlan::ReportEmpty
        },
        Check::PendingPods | Check::PortForwards => if running {
            CheckPlan::Ask
        } else {
            CheckPlan::ReportEmpty
        },
        Check::PullProgress | Check::Volumes => if running && docker {
            CheckPlan::Ask
        } else {
            CheckPlan::Nothing
        },
        Check::IngressHealth => if running && has_entries {
            CheckPlan::Ask
        } else {
            CheckPlan::Nothing
        },
        Check::Ingress | Check::MissingHosts => if running {
            CheckPlan::Ask
        } else {
            CheckPlan::Nothing
        },
        _ => CheckPlan::Ask,
    }
}

// ---------------------------------------------------------------------------
// Repeated commands
// ---------------------------------------------------------------------------

/// A command that runs again and again. Times are in nanoseconds on one clock.
#[derive(Debug, Clone, Copy)]
pub struct Repeated {
    pub last_run: u128,
    pub interval: u128,
    pub in_flight: bool,
}

/// What a tick does for a repeated command.
#[derive(Debug, Clone, Copy, PartialEq, Eq, Structural)]
pub enum Tick {
    Wait,
    /// Report that it is skipped, and try again after the interval.
    Skip,
    Run,
}

/// Whether a command is due: it does not run, and its interval is over.
pub open spec fn due(r: Repeated, now: u128) -> bool {
    !r.in_flight && (now >= r.last_run && now - r.last_run >= r.interval || now < r.last_run
        && r.interval == 0)
}

impl Repeated {
    fn is_due(&self, now: u128) -> (r: bool)
        ensures
            r == due(*self, now),
    {
        if self.in_flight {
            return false;
        }
        if now >= self.last_run {
            now - self.last_run >= self.interval
        } else {
            self.interval == 0
        }
    }

    /// A tick of an info block. One that needs the cluster is skipped while it does not run.
    pub fn info_block_tick(&mut self, now: u128, needs_cluster: bool, status: ClusterStatus) -> (r: Tick)
        ensures
            r is Run ==> status == ClusterStatus::Running || !needs_cluster,
            final(self).in_flight <==> old(self).in_flight || r is Run,
            r is Wait <==> !due(*old(self), now),
            !due(*old(self), now) ==> r == Tick::Wait && *final(self) == *old(self),
            due(*old(self), now) && needs_cluster && status != ClusterStatus::Running ==> r
                == Tick::Skip && *final(self) == (Repeated { last_run: now, ..*old(self) }),
            due(*old(self), now) && !(needs_cluster && status != ClusterStatus::Running) ==> r
                == Tick::Run && *final(self) == (Repeated {
                last_run: now,
                in_flight: true,
                ..*old(self)
            }),
    {
        if !self.is_due(now) {
            return Tick::Wait;
        }
        self.last_run = now;
        if needs_cluster && status != ClusterStatus::Running {
            return Tick::Skip;
        }
        self.in_flight = true;
        Tick::Run
    }

    /// A tick of a visibility check. Those on pods are answered from the pod list and never run.
    pub fn visibility_tick(&mut self, now: u128, on_pods: bool) -> (r: Tick)
        ensures
            r is Run <==> !on_pods && due(*old(self), now),
            final(self).in_flight <==> old(self).in_flight || r is Run,
            on_pods || !due(*old(self), now) ==> r == Tick::Wait && *final(self) == *old(self),
            !on_pods && due(*old(self), now) ==> r == Tick::Run && *final(self) == (Repeated {
                last_run: now,
                in_flight: true,
                ..*old(self)
            }),
    {
        if on_pods || !self.is_due(now) {
            return Tick::Wait;
        }
        self.in_flight = true;
        self.last_run = now;
        Tick::Run
    }
}

/// A quarter of a second less than the interval, kept between two bounds.
pub open spec fn run_limit(interval: u128, low: u128, high: u128) -> u128 {
    let t = if interval >= 250_000_000 {
        (interval - 250_000_000) as u128
    } else {
        0u128
    };
    let u = if t >= low {
        t
    } else {
        low
    };
    if u <= high {
        u
    } else {
        high
    }
}

fn limit(interval: u128, low: u128, high: u128) -> (r: u128)
    ensures
        r == run_limit(interval, low, high),
{
    let t: u128 = if interval >= 250_000_000 {
        interval - 250_000_000
    } else {
        0
    };
    let u: u128 = if t >= low {
        t
    } else {
        low
    };
    if u <= high {
        u
    } else {
        high
    }
}

/// How long a visibility check may take: one to thirty seconds.
pub fn visibility_timeout(interval: u128) -> (r: u128)
    ensures
        r == run_limit(interval, 1_000_000_000, 30_000_000_000),
        1_000_000_000 <= r <= 30_000_000_000,
{
    limit(interval, 1_000_000_000, 30_000_000_000)
}

/// How long an info block may take: two to sixty seconds.
pub fn info_block_timeout(interval: u128) -> (r: u128)
    ensures
        r == run_limit(interval, 2_000_000_000, 60_000_000_000),
        2_000_000_000 <= r <= 60_000_000_000,
{
    limit(interval, 2_000_000_000, 60_000_000_000)
}

// ---------------------------------------------------------------------------
// Watching image pulls
// ---------------------------------------------------------------------------

/// The images that are pulled for the containers of a pod.
pub open spec fn pod_pulls(cs: Seq<PendingContainer>) -> Seq<Seq<char>>
    decreases cs.len(),
{
    if cs.len() == 0 {
        Seq::empty()
    } else if means_pulling(cs.last().reason@) {
        pod_pulls(cs.drop_last()).push(cs.last().image@)
    } else {
        pod_pulls(cs.drop_last())
    }
}

/// The images that are pulled, in the order of pods and containers.
pub open spec fn all_pulls(pending: Seq<PendingPod>) -> Seq<Seq<char>>
    decreases pending.len(),
{
    if pending.len() == 0 {
        Seq::empty()
    } else {
        all_pulls(pending.drop_last()) + pod_pulls(pending.last().containers@)
    }
}

proof fn lemma_joined_once_push(known: Seq<Seq<char>>, items: Seq<Seq<char>>, x: Seq<char>)
    ensures
        joined_once(known, items.push(x)) == with_text(joined_once(known, items), x),
{
    assert(items.push(x).drop_last() =~= items);
}

proof fn lemma_joined_once_extends(known: Seq<Seq<char>>, items: Seq<Seq<char>>)
    ensures
        joined_once(known, items).len() >= known.len(),
        joined_once(known, items).take(known.len() as int) == known,
    decreases items.len(),
{
    if items.len() > 0 {
        lemma_joined_once_extends(known, items.drop_last());
        assert(joined_once(known, items).take(known.len() as int) =~= known);
    } else {
        assert(known.take(known.len() as int) =~= known);
    }
}

impl AppState {
    /// Adds the images that are being pulled to those that are watched; the new ones, which
    /// have to be watched from now on, are the last of them, from the returned index on.
    pub fn watch_new_pulls(&mut self) -> (first_new: usize)
        ensures
            first_new == old(self).monitors@.len(),
            first_new <= final(self).monitors@.len(),
            views(final(self).monitors@) == joined_once(
                views(old(self).monitors@),
                all_pulls(old(self).pending@),
            ),
            views(final(self).monitors@).take(first_new as int) == views(old(self).monitors@),
            *final(self) == (AppState { monitors: final(self).monitors, ..*old(self) }),
    {
        let first_new: usize = self.monitors.len();
        let ghost known = views(self.monitors@);
        let mut i: usize = 0;
        while i < self.pending.len()
            invariant
                i <= self.pending@.len(),
                views(self.monitors@) == joined_once(
                    known,
                    all_pulls(self.pending@.take(i as int)),
                ),
                *self == (AppState { monitors: self.monitors, ..*old(self) }),
            decreases self.pending@.len() - i,
        {
            let ghost head = all_pulls(self.pending@.take(i as int));
            assert(self.pending@.take(i + 1).drop_last() =~= self.pending@.take(i as int));
            let ghost cs = self.pending@[i as int].containers@;
            let mut j: usize = 0;
            assert(head + pod_pulls(cs.take(0)) =~= head);
            while j < self.pending[i].containers.len()
                invariant
                    i < self.pending@.len(),
                    cs == self.pending@[i as int].containers@,
                    j <= cs.len(),
                    views(self.monitors@) == joined_once(known, head + pod_pulls(cs.take(j as int))),
                    *self == (AppState { monitors: self.monitors, ..*old(self) }),
                decreases cs.len() - j,
            {
                assert(cs.take(j + 1).drop_last() =~= cs.take(j as int));
                if is_pulling(self.pending[i].containers[j].reason.as_str()) {
                    let image = self.pending[i].containers[j].image.clone();
                    proof {
                        lemma_joined_once_push(known, head + pod_pulls(cs.take(j as int)), image@);
                        assert((head + pod_pulls(cs.take(j as int))).push(image@) =~= head
                            + pod_pulls(cs.take(j + 1)));
                    }
                    add_once(&mut self.monitors, image.as_str());
                }
                j = j + 1;
            }
            assert(cs.take(j as int) =~= cs);
            i = i + 1;
        }
        assert(self.pending@.take(i as int) =~= self.pending@);
        proof {
            lemma_joined_once_extends(known, all_pulls(old(self).pending@));
        }
        assert(views(self.monitors@).len() == self.monitors@.len());
        first_new
    }
}

/// The name of the first container that has the image; empty where there is none.
pub open spec fn container_with(cs: Seq<PendingContainer>, image: Seq<char>) -> Option<Seq<char>>
    decreases cs.len(),
{
    if cs.len() == 0 {
        None
    } else if cs[0].image@ == image {
        Some(cs[0].name@)
    } else {
        container_with(cs.skip(1), image)
    }
}

/// The name of the first container of all pods that has the image.
pub open spec fn first_container(pending: Seq<PendingPod>, image: Seq<char>) -> Seq<char>
    decreases pending.len(),
{
    if pending.len() == 0 {
        Seq::empty()
    } else {
        match container_with(pending[0].containers@, image) {
            Some(n) => n,
            None => first_container(pending.skip(1), image),
        }
    }
}

/// The name of the container under which the pull of an image is shown.
pub fn container_name_for(pending: &Vec<PendingPod>, image: &str) -> (r: String)
    ensures
        r@ == first_container(pending@, image@),
{
    let mut i: usize = 0;
    assert(pending@.skip(0) =~= pending@);
    while i < pending.len()
        invariant
            i <= pending@.len(),
            first_container(pending@, image@) == first_container(pending@.skip(i as int), image@),
        decreases pending@.len() - i,
    {
        assert(pending@.skip(i as int)[0] == pending@[i as int]);
        assert(pending@.skip(i as int).skip(1) =~= pending@.skip(i + 1));
        let cs = &pending[i].containers;
        let mut j: usize = 0;
        assert(cs@.skip(0) =~= cs@);
        while j < cs.len()
            invariant
                i < pending@.len(),
                *cs == pending@[i as int].containers,
                j <= cs@.len(),
                container_with(cs@, image@) == container_with(cs@.skip(j as int), image@),
                pending@.skip(i as int)[0] == pending@[i as int],
                pending@.skip(i as int).len() > 0,
                first_container(pending@, image@) == first_container(
                    pending@.skip(i as int),
                    image@,
                ),
            decreases cs@.len() - j,
        {
            assert(cs@.skip(j as int)[0] == cs@[j as int]);
            assert(cs@.skip(j as int).skip(1) =~= cs@.skip(j + 1));
            if same(cs[j].image.as_str(), image) {
                return cs[j].name.clone();
            }
            j = j + 1;
        }
        i = i + 1;
    }
    String::new()
}

// ---------------------------------------------------------------------------
// Volumes
// ---------------------------------------------------------------------------

/// A volume claim as the API server knows it.
#[derive(Debug)]
pub struct PvcMetadata {
    pub name: String,
    pub namespace: String,
    pub capacity_bytes: u64,
    pub phase: String,
    pub storage_class: String,
}

/// A volume as it is shown.
#[derive(Debug)]
pub struct PvcInfo {
    pub name: String,
    pub namespace: String,
    pub capacity_bytes: u64,
    pub used_bytes: Option<u64>,
    pub phase: String,
    pub storage_class: String,
    pub pods: Vec<String>,
}

/// The model of [`PvcInfo`].
pub struct PvcView {
    pub name: Seq<char>,
    pub namespace: Seq<char>,
    pub capacity_bytes: u64,
    pub used_bytes: Option<u64>,
    pub phase: Seq<char>,
    pub storage_class: Seq<char>,
    pub pods: Seq<Seq<char>>,
}

impl View for PvcInfo {
    type V = PvcView;

    open spec fn view(&self) -> PvcView {
        PvcView {
            name: self.name@,
            namespace: self.namespace@,
            capacity_bytes: self.capacity_bytes,
            used_bytes: self.used_bytes,
            phase: self.phase@,
            storage_class: self.storage_class@,
            pods: views(self.pods@),
        }
    }
}

/// The models of a list of volumes.
pub open spec fn pvc_views(v: Seq<PvcInfo>) -> Seq<PvcView> {
    Seq::new(v.len(), |i: int| v[i]@)
}

impl HasRank for PvcView {
    open spec fn rank(&self) -> Seq<Seq<char>> {
        seq![self.namespace, self.name]
    }
}

impl HasRank for PvcInfo {
    open spec fn rank(&self) -> Seq<Seq<char>> {
        seq![self.namespace@, self.name@]
    }
}

impl Ranked for PvcInfo {
    fn ranks_before(&self, other: &Self) -> (r: bool) {
        pair_before(
            self.namespace.as_str(),
            self.name.as_str(),
            other.namespace.as_str(),
            other.name.as_str(),
        )
    }
}

/// The key of a volume claim.
pub open spec fn pvc_key(v: VolumeStats) -> Seq<char> {
    v.namespace@ + "/"@ + v.pvc_name@
}

/// A volume on disk, with what the API server knows of it.
pub open spec fn disk_row(v: VolumeStats, meta: Seq<(Seq<char>, PvcMetadata)>) -> PvcView {
    match lookup(meta, pvc_key(v)) {
        Some(m) => PvcView {
            name: v.pvc_name@,
            namespace: v.namespace@,
            capacity_bytes: m.capacity_bytes,
            used_bytes: Some(v.used_bytes),
            phase: m.phase@,
            storage_class: m.storage_class@,
            pods: views(v.pods@),
        },
        None => PvcView {
            name: v.pvc_name@,
            namespace: v.namespace@,
            capacity_bytes: 0,
            used_bytes: Some(v.used_bytes),
            phase: "Unknown"@,
            storage_class: Seq::empty(),
            pods: views(v.pods@),
        },
    }
}

/// A claim that is not on disk.
pub open spec fn claim_row(m: PvcMetadata) -> PvcView {
    PvcView {
        name: m.name@,
        namespace: m.namespace@,
        capacity_bytes: m.capacity_bytes,
        used_bytes: None,
        phase: m.phase@,
        storage_class: m.storage_class@,
        pods: Seq::empty(),
    }
}

/// Whether a volume with this key is on disk.
pub open spec fn on_disk(disk: Seq<VolumeStats>, key: Seq<char>) -> bool {
    exists|i: int| 0 <= i < disk.len() && pvc_key(#[trigger] disk[i]) == key
}

/// The claims that are not on disk.
pub open spec fn claim_rows(meta: Seq<(Seq<char>, PvcMetadata)>, disk: Seq<VolumeStats>) -> Seq<PvcView>
    decreases meta.len(),
{
    if meta.len() == 0 {
        Seq::empty()
    } else {
        let rest = claim_rows(meta.drop_last(), disk);
        if on_disk(disk, meta.last().0) {
            rest
        } else {
            rest.push(claim_row(meta.last().1))
        }
    }
}

/// The volumes on disk.
pub open spec fn disk_rows(disk: Seq<VolumeStats>, meta: Seq<(Seq<char>, PvcMetadata)>) -> Seq<PvcView> {
    Seq::new(disk.len(), |i: int| disk_row(disk[i], meta))
}

/// All volumes, by namespace and name.
pub open spec fn merged_volumes(disk: Seq<VolumeStats>, meta: Seq<(Seq<char>, PvcMetadata)>) -> Seq<
    PvcView,
> {
    ranked(disk_rows(disk, meta) + claim_rows(meta, disk))
}

fn key_of(v: &VolumeStats) -> (r: String)
    ensures
        r@ == pvc_key(*v),
{
    let mut s = v.namespace.clone();
    s.append("/");
    s.append(v.pvc_name.as_str());
    s
}

fn is_on_disk(disk: &Vec<VolumeStats>, key: &str) -> (r: bool)
    ensures
        r == on_disk(disk@, key@),
{
    let mut i: usize = 0;
    while i < disk.len()
        invariant
            i <= disk@.len(),
            forall|j: int| 0 <= j < i ==> pvc_key(#[trigger] disk@[j]) != key@,
        decreases disk@.len() - i,
    {
        let k = key_of(&disk[i]);
        if same(k.as_str(), key) {
            return true;
        }
        i = i + 1;
    }
    false
}

/// The volumes on disk with what the API server knows of them, then the claims that are not on
/// disk yet, in the order of namespace and name.
pub fn merge_volumes(disk: &Vec<VolumeStats>, meta: &TextMap<PvcMetadata>) -> (r: Vec<PvcInfo>)
    ensures
        pvc_views(r@) == merged_volumes(disk@, meta@),
{
    let mut out: Vec<PvcInfo> = Vec::new();
    let ghost mut rows: Seq<PvcInfo> = Seq::empty();
    let ghost first = disk_rows(disk@, meta@);
    let mut i: usize = 0;
    assert(pvc_views(rows) =~= first.take(0));
    while i < disk.len()
        invariant
            i <= disk@.len(),
            first == disk_rows(disk@, meta@),
            pvc_views(rows) == first.take(i as int),
            out@ == ranked(rows),
        decreases disk@.len() - i,
    {
        let v = &disk[i];
        let key = key_of(v);
        let row = match meta.get(key.as_str()) {
            Some(m) => PvcInfo {
                name: v.pvc_name.clone(),
                namespace: v.namespace.clone(),
                capacity_bytes: m.capacity_bytes,
                used_bytes: Some(v.used_bytes),
                phase: m.phase.clone(),
                storage_class: m.storage_class.clone(),
                pods: clone_all(&v.pods),
            },
            None => PvcInfo {
                name: v.pvc_name.clone(),
                namespace: v.namespace.clone(),
                capacity_bytes: 0,
                used_bytes: Some(v.used_bytes),
                phase: "Unknown".to_owned(),
                storage_class: String::new(),
                pods: clone_all(&v.pods),
            },
        };
        proof {
            assert(rows.push(row).drop_last() =~= rows);
            assert(pvc_views(rows.push(row)) =~= pvc_views(rows).push(row@));
            assert(first.take(i + 1) =~= first.take(i as int).push(first[i as int]));
            rows = rows.push(row);
        }
        insert_ranked(&mut out, row);
        i = i + 1;
    }
    assert(first.take(i as int) =~= first);
    let ghost all = meta@;
    let mut k: usize = 0;
    assert(first + claim_rows(all.take(0), disk@) =~= first);
    while k < meta.entries.len()
        invariant
            k <= meta.entries@.len(),
            all == meta@,
            pvc_views(rows) == first + claim_rows(all.take(k as int), disk@),
            out@ == ranked(rows),
        decreases meta.entries@.len() - k,
    {
        assert(all.take(k + 1).drop_last() =~= all.take(k as int));
        assert(all.take(k + 1).last() == (meta.entries@[k as int].0@, meta.entries@[k as int].1));
        if !is_on_disk(disk, meta.entries[k].0.as_str()) {
            let m = &meta.entries[k].1;
            let pods: Vec<String> = Vec::new();
            assert(views(pods@) =~= Seq::<Seq<char>>::empty());
            let row = PvcInfo {
                name: m.name.clone(),
                namespace: m.namespace.clone(),
                capacity_bytes: m.capacity_bytes,
                used_bytes: None,
                phase: m.phase.clone(),
                storage_class: m.storage_class.clone(),
                pods,
            };
            proof {
                assert(rows.push(row).drop_last() =~= rows);
                assert(pvc_views(rows.push(row)) =~= pvc_views(rows).push(row@));
                let old_rows = claim_rows(all.take(k as int), disk@);
                assert((first + old_rows).push(row@) =~= first + old_rows.push(row@));
                rows = rows.push(row);
            }
            insert_ranked(&mut out, row);
        }
        k = k + 1;
    }
    assert(all.take(k as int) =~= all);
    proof {
        let f = |x: PvcInfo| x@;
        assert(pvc_views(rows) =~= rows.map_values(f));
        assert(pvc_views(out@) =~= out@.map_values(f));
        lemma_ranked_map(rows, f);
    }
    out
}

/// The list of volumes is in order and holds what is on disk and what is claimed, no more.
pub proof fn law_merged_volumes(disk: Seq<VolumeStats>, meta: Seq<(Seq<char>, PvcMetadata)>)
    ensures
        crate::order::in_order(merged_volumes(disk, meta)),
        merged_volumes(disk, meta).to_multiset() == (disk_rows(disk, meta) + claim_rows(
            meta,
            disk,
        )).to_multiset(),
{
    crate::order::law_sorting(disk_rows(disk, meta) + claim_rows(meta, disk));
}

// ---------------------------------------------------------------------------
// Laws
// ---------------------------------------------------------------------------

/// Every check has its task, and each task only its own checks.
pub proof fn law_checks_have_their_task(t: RefreshTask, logs_shown: bool, c: Check)
    ensures
        task_checks(t, logs_shown).contains(c) <==> match c {
            Check::ToggleBlink => t == RefreshTask::BlinkToggle,
            Check::IngressHealth | Check::Ingress | Check::PortForwards => t
                == RefreshTask::IngressRefresh,
            Check::MissingHosts => t == RefreshTask::HostsCheck,
            Check::ResourceStats | Check::PodStats | Check::PendingPods | Check::PullProgress => t
                == RefreshTask::StatsRefresh,
            Check::Logs => t == RefreshTask::StatsRefresh && logs_shown,
            Check::Volumes => t == RefreshTask::VolumeRefresh,
        },
{
    let s = task_checks(t, logs_shown);
    if t == RefreshTask::StatsRefresh {
        assert(s[0] == Check::ResourceStats);
        assert(s[1] == Check::PodStats);
        assert(s[2] == Check::PendingPods);
        assert(s[3] == Check::PullProgress);
        if logs_shown {
            assert(s[4] == Check::Logs);
        }
    } else if t == RefreshTask::IngressRefresh {
        assert(s[0] == Check::IngressHealth);
        assert(s[1] == Check::Ingress);
        assert(s[2] == Check::PortForwards);
    } else {
        assert(s.contains(s[0]));
    }
}

/// Nothing is asked of a cluster that does not run, nor of a Docker that is not there; where both are
/// there, everything is asked.
pub proof fn law_only_what_runs_is_asked(c: Check, running: bool, docker: bool, has_entries: bool)
    ensures
        check_plan(c, false, docker, has_entries) == CheckPlan::Ask ==> c == Check::ToggleBlink || c
            == Check::ResourceStats || c == Check::Logs,
        !docker && (c == Check::PodStats || c == Check::PullProgress || c == Check::Volumes)
            ==> check_plan(c, running, docker, has_entries) != CheckPlan::Ask,
        running && docker && (has_entries || c != Check::IngressHealth) ==> check_plan(
            c,
            running,
            docker,
            has_entries,
        ) == CheckPlan::Ask,
        !has_entries && c == Check::IngressHealth ==> check_plan(c, running, docker, has_entries)
            == CheckPlan::Nothing,
        running && c != Check::PodStats && c != Check::PullProgress && c != Check::Volumes ==> check_plan(
            c,
            running,
            docker,
            has_entries,
        ) == check_plan(c, running, true, has_entries),
        check_plan(c, running, docker, has_entries) == CheckPlan::ReportEmpty <==> (c
            == Check::PodStats && !(running && docker)) || (c == Check::PendingPods && !running) || (c
            == Check::PortForwards && !running),
{
}

/// A command is due from the end of its interval on, not before, and never while it runs.
pub proof fn law_intervals_are_kept(r: Repeated, now: u128, later: u128)
    ensures
        r.in_flight ==> !due(r, now),
        r.last_run <= now < r.last_run + r.interval ==> !due(r, now),
        !r.in_flight && r.last_run + r.interval <= now ==> due(r, now),
        r.last_run <= now <= later && due(r, now) ==> due(r, later),
{
}

/// A run may take its interval less a quarter of a second, within its bounds.
pub proof fn law_runs_end_before_the_next(interval: u128, low: u128, high: u128)
    requires
        low <= high,
    ensures
        low <= run_limit(interval, low, high) <= high,
        low + 250_000_000 <= interval <= high + 250_000_000 ==> run_limit(interval, low, high)
            + 250_000_000 == interval,
        interval < low + 250_000_000 ==> run_limit(interval, low, high) == low,
        interval > high + 250_000_000 ==> run_limit(interval, low, high) == high,
{
}

/// The images that are watched are those that are being pulled for some pod.
pub proof fn law_pulled_images_are_watched(pending: Seq<PendingPod>, image: Seq<char>)
    ensures
        all_pulls(pending).contains(image) <==> still_pulling(pending, image),
    decreases pending.len(),
{
    if pending.len() > 0 {
        let d = pending.drop_last();
        let cs = pending.last().containers@;
        let a = all_pulls(d);
        let b = pod_pulls(cs);
        let s = a + b;
        law_pulled_images_are_watched(d, image);
        lemma_pod_pulls(cs, image);
        assert(pending[pending.len() - 1] == pending.last());
        if a.contains(image) {
            let i = choose|i: int| 0 <= i < a.len() && a[i] == image;
            assert(s[i] == image);
            let (i, j) = choose|i: int, j: int|
                0 <= i < d.len() && 0 <= j < d[i].containers@.len() && (
                #[trigger] d[i].containers@[j]).image@ == image && means_pulling(
                    d[i].containers@[j].reason@,
                );
            assert(pending[i].containers@[j] == d[i].containers@[j]);
        }
        if b.contains(image) {
            let i = choose|i: int| 0 <= i < b.len() && b[i] == image;
            assert(s[a.len() + i] == image);
            let j = choose|j: int|
                0 <= j < cs.len() && (#[trigger] cs[j]).image@ == image && means_pulling(
                    cs[j].reason@,
                );
            assert(pending[pending.len() - 1].containers@[j] == cs[j]);
        }
        if s.contains(image) {
            let i = choose|i: int| 0 <= i < s.len() && s[i] == image;
            if i < a.len() {
                assert(a[i] == image);
            } else {
                assert(b[i - a.len()] == image);
            }
        }
        if still_pulling(pending, image) {
            let (i, j) = choose|i: int, j: int|
                0 <= i < pending.len() && 0 <= j < pending[i].containers@.len() && (
                #[trigger] pending[i].containers@[j]).image@ == image && means_pulling(
                    pending[i].containers@[j].reason@,
                );
            if i < d.len() {
                assert(d[i].containers@[j] == pending[i].containers@[j]);
            } else {
                assert(cs[j].image@ == image);
            }
        }
    }
}

proof fn lemma_pod_pulls(cs: Seq<PendingContainer>, image: Seq<char>)
    ensures
        pod_pulls(cs).contains(image) <==> exists|j: int|
            0 <= j < cs.len() && (#[trigger] cs[j]).image@ == image && means_pulling(cs[j].reason@),
    decreases cs.len(),
{
    if cs.len() > 0 {
        let d = cs.drop_last();
        let r = pod_pulls(d);
        let y = cs.last().image@;
        let t = r.push(y);
        lemma_pod_pulls(d, image);
        assert(t[r.len() as int] == y);
        assert(cs[cs.len() - 1] == cs.last());
        if r.contains(image) {
            let j = choose|j: int|
                0 <= j < d.len() && (#[trigger] d[j]).image@ == image && means_pulling(d[j].reason@);
            assert(cs[j] == d[j]);
            let i = choose|i: int| 0 <= i < r.len() && r[i] == image;
            assert(t[i] == image);
        }
        if t.contains(image) && image != y {
            let i = choose|i: int| 0 <= i < t.len() && t[i] == image;
            assert(r[i] == image);
        }
        if exists|j: int|
            0 <= j < cs.len() && (#[trigger] cs[j]).image@ == image && means_pulling(cs[j].reason@) {
            let j = choose|j: int|
                0 <= j < cs.len() && (#[trigger] cs[j]).image@ == image && means_pulling(
                    cs[j].reason@,
                );
            if j < d.len() {
                assert(d[j] == cs[j]);
            }
        }
    }
}

/// A pull is shown under the name of a container with its image: the first of the first pod that has
/// one.
pub proof fn law_pulls_are_shown_under_their_container(
    pending: Seq<PendingPod>,
    image: Seq<char>,
    i: int,
    j: int,
)
    requires
        0 <= i < pending.len(),
        0 <= j < pending[i].containers@.len(),
        pending[i].containers@[j].image@ == image,
        forall|k: int|
            0 <= k < j ==> (#[trigger] pending[i].containers@[k]).image@ != image,
        forall|h: int, k: int|
            0 <= h < i && 0 <= k < pending[h].containers@.len() ==> (
            #[trigger] pending[h].containers@[k]).image@ != image,
    ensures
        first_container(pending, image) == pending[i].containers@[j].name@,
    decreases pending.len(),
{
    let cs = pending[0].containers@;
    if i == 0 {
        assert forall|k: int| 0 <= k < j implies (#[trigger] cs[k]).image@ != image by {
            assert(pending[0].containers@[k].image@ != image);
        }
        lemma_container_with(cs, image, j);
    } else {
        assert forall|k: int| 0 <= k < cs.len() implies (#[trigger] cs[k]).image@ != image by {
            assert(pending[0].containers@[k].image@ != image);
        }
        lemma_container_with(cs, image, cs.len() as int);
        let r = pending.skip(1);
        assert(r[i - 1] == pending[i]);
        assert forall|h: int, k: int|
            0 <= h < i - 1 && 0 <= k < r[h].containers@.len() implies (
        #[trigger] r[h].containers@[k]).image@ != image by {
            assert(r[h] == pending[h + 1]);
            assert(pending[h + 1].containers@[k].image@ != image);
        }
        law_pulls_are_shown_under_their_container(r, image, i - 1, j);
    }
}

proof fn lemma_container_with(cs: Seq<PendingContainer>, image: Seq<char>, j: int)
    requires
        0 <= j <= cs.len(),
        j < cs.len() ==> cs[j].image@ == image,
        forall|k: int| 0 <= k < j ==> (#[trigger] cs[k]).image@ != image,
    ensures
        container_with(cs, image) == if j < cs.len() {
            Some(cs[j].name@)
        } else {
            None
        },
    decreases cs.len(),
{
    if cs.len() > 0 && j > 0 {
        let r = cs.skip(1);
        assert forall|k: int| 0 <= k < j - 1 implies (#[trigger] r[k]).image@ != image by {
            assert(r[k] == cs[k + 1]);
        }
        if j < cs.len() {
            assert(r[j - 1] == cs[j]);
        }
        lemma_container_with(r, image, j - 1);
    }
}

/// Every volume on disk is listed with what it holds and the pods that use it, and with the size and
/// phase of its claim where there is one.
pub proof fn law_volumes_on_disk_are_listed(
    disk: Seq<VolumeStats>,
    meta: Seq<(Seq<char>, PvcMetadata)>,
    i: int,
)
    requires
        0 <= i < disk.len(),
    ensures
        exists|j: int|
            {
                &&& 0 <= j < merged_volumes(disk, meta).len()
                &&& (#[trigger] merged_volumes(disk, meta)[j]).name == disk[i].pvc_name@
                &&& merged_volumes(disk, meta)[j].namespace == disk[i].namespace@
                &&& merged_volumes(disk, meta)[j].used_bytes == Some(disk[i].used_bytes)
                &&& merged_volumes(disk, meta)[j].pods == views(disk[i].pods@)
                &&& lookup(meta, disk[i].namespace@ + "/"@ + disk[i].pvc_name@) matches Some(m) ==> {
                    &&& merged_volumes(disk, meta)[j].capacity_bytes == m.capacity_bytes
                    &&& merged_volumes(disk, meta)[j].phase == m.phase@
                    &&& merged_volumes(disk, meta)[j].storage_class == m.storage_class@
                }
            },
{
    let rows = disk_rows(disk, meta) + claim_rows(meta, disk);
    let x = disk_row(disk[i], meta);
    let m = merged_volumes(disk, meta);
    assert(rows[i] == x);
    crate::order::lemma_ranked_contains(rows, x);
    let j = choose|j: int| 0 <= j < m.len() && m[j] == x;
    assert(m[j].name == disk[i].pvc_name@);
}

/// A claim whose volume is not on disk is listed as that, and nothing else is listed without its use.
pub proof fn law_claims_without_a_volume_are_listed(
    disk: Seq<VolumeStats>,
    meta: Seq<(Seq<char>, PvcMetadata)>,
    x: PvcView,
)
    requires
        x.used_bytes is None,
    ensures
        merged_volumes(disk, meta).contains(x) <==> exists|i: int|
            0 <= i < meta.len() && x == claim_row((#[trigger] meta[i]).1) && !on_disk(
                disk,
                meta[i].0,
            ),
{
    let a = disk_rows(disk, meta);
    let b = claim_rows(meta, disk);
    let rows = a + b;
    crate::order::lemma_ranked_contains(rows, x);
    lemma_claim_rows(meta, disk, x);
    if rows.contains(x) {
        let i = choose|i: int| 0 <= i < rows.len() && rows[i] == x;
        assert(i >= a.len());
        assert(b[i - a.len()] == x);
    }
    if b.contains(x) {
        let i = choose|i: int| 0 <= i < b.len() && b[i] == x;
        assert(rows[a.len() + i] == x);
    }
}

proof fn lemma_claim_rows(meta: Seq<(Seq<char>, PvcMetadata)>, disk: Seq<VolumeStats>, x: PvcView)
    ensures
        claim_rows(meta, disk).contains(x) <==> exists|i: int|
            0 <= i < meta.len() && x == claim_row((#[trigger] meta[i]).1) && !on_disk(
                disk,
                meta[i].0,
            ),
    decreases meta.len(),
{
    if meta.len() > 0 {
        let d = meta.drop_last();
        let r = claim_rows(d, disk);
        let y = claim_row(meta.last().1);
        let t = r.push(y);
        lemma_claim_rows(d, disk, x);
        assert(t[r.len() as int] == y);
        assert(meta[meta.len() - 1] == meta.last());
        if r.contains(x) {
            let i = choose|i: int|
                0 <= i < d.len() && x == claim_row((#[trigger] d[i]).1) && !on_disk(disk, d[i].0);
            assert(meta[i] == d[i]);
            let j = choose|j: int| 0 <= j < r.len() && r[j] == x;
            assert(t[j] == x);
        }
        if t.contains(x) && x != y {
            let j = choose|j: int| 0 <= j < t.len() && t[j] == x;
            assert(r[j] == x);
        }
        if exists|i: int|
            0 <= i < meta.len() && x == claim_row((#[trigger] meta[i]).1) && !on_disk(
                disk,
                meta[i].0,
            ) {
            let i = choose|i: int|
                0 <= i < meta.len() && x == claim_row((#[trigger] meta[i]).1) && !on_disk(
                    disk,
                    meta[i].0,
                );
            if i < d.len() {
                assert(d[i] == meta[i]);
            }
        }
    }
}

} // verus!
