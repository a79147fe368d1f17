//! Progress of image pulls: from the events of Docker's stream to what is shown.

use vstd::prelude::*;
use crate::approx::{at_most, law_percentage_is_limited, percent, percentage, Approx};
use crate::cluster::docker::image::{capped, ManifestInfo};
use crate::text::same;
use crate::textmap::{keyed, law_put_then_lookup, lookup, put, TextMap};

verus! {

/// Phase of one layer of an image.
#[derive(Debug, Clone, Copy, PartialEq, Eq, Structural)]
pub enum LayerPhase {
    Pending,
    Downloading,
    Extracting,
    Done,
    Cached,
}

/// Phase of a pull as a whole.
#[derive(Debug, Clone, Copy, PartialEq, Eq, Structural)]
pub enum PullPhase {
    Downloading,
    Extracting,
    Complete,
}

/// What is known of one layer. `manifest_bytes` is the size that the manifest gives; it is set
/// to zero once the layer turns out to be there already.
#[derive(Debug, Clone, Copy)]
pub struct LayerTracker {
    pub phase: LayerPhase,
    pub current_bytes: u64,
    pub total_bytes: u64,
    pub manifest_bytes: u64,
}

/// Progress of the pull of one container's image.
#[derive(Debug, Clone)]
pub struct ContainerPullProgress {
    pub container_name: String,
    pub image: String,
    pub total_bytes: u64,
    pub downloaded_bytes: u64,
    /// Whether the number of bytes is known.
    pub tracking_available: bool,
    pub phase: PullPhase,
    pub layers_done: u16,
    pub layers_total: u16,
}

/// The figures of a pull.
#[derive(Debug, Clone, Copy)]
pub struct PullFigures {
    pub total_bytes: u64,
    pub downloaded_bytes: u64,
    pub tracking_available: bool,
    pub phase: PullPhase,
    pub layers_done: u16,
    pub layers_total: u16,
}

/// Figures brought up to date: bytes done and to do never go back; phase and layers are the new
/// ones.
pub open spec fn advanced(a: PullFigures, b: PullFigures) -> PullFigures {
    let total = greatest(a.total_bytes, b.total_bytes);
    PullFigures {
        total_bytes: total,
        downloaded_bytes: greatest(a.downloaded_bytes, b.downloaded_bytes),
        tracking_available: total > 0 || a.tracking_available,
        phase: b.phase,
        layers_done: b.layers_done,
        layers_total: b.layers_total,
    }
}

/// Figures of a pull of which nothing is known.
pub open spec fn no_figures() -> PullFigures {
    PullFigures {
        total_bytes: 0,
        downloaded_bytes: 0,
        tracking_available: false,
        phase: PullPhase::Downloading,
        layers_done: 0,
        layers_total: 0,
    }
}

impl PullFigures {
    /// Nothing is known.
    pub fn none() -> (r: Self)
        ensures
            r == no_figures(),
    {
        PullFigures {
            total_bytes: 0,
            downloaded_bytes: 0,
            tracking_available: false,
            phase: PullPhase::Downloading,
            layers_done: 0,
            layers_total: 0,
        }
    }

    /// Figures brought up to date with newer ones.
    pub fn advance(self, newer: PullFigures) -> (r: Self)
        ensures
            r == advanced(self, newer),
    {
        let total: u64 = if newer.total_bytes >= self.total_bytes {
            newer.total_bytes
        } else {
            self.total_bytes
        };
        PullFigures {
            total_bytes: total,
            downloaded_bytes: if newer.downloaded_bytes >= self.downloaded_bytes {
                newer.downloaded_bytes
            } else {
                self.downloaded_bytes
            },
            tracking_available: total > 0 || self.tracking_available,
            phase: newer.phase,
            layers_done: newer.layers_done,
            layers_total: newer.layers_total,
        }
    }
}

/// Bytes never go back, whatever figures arrive, and arriving twice changes nothing more.
pub proof fn law_figures_never_go_back(a: PullFigures, b: PullFigures)
    ensures
        advanced(a, b).downloaded_bytes >= a.downloaded_bytes,
        advanced(a, b).total_bytes >= a.total_bytes,
        a.tracking_available ==> advanced(a, b).tracking_available,
        advanced(advanced(a, b), b) == advanced(a, b),
{
}

// ---------------------------------------------------------------------------
// Layers and their sum
// ---------------------------------------------------------------------------

/// The phase that a status text stands for.
pub open spec fn phase_of(s: Seq<char>) -> LayerPhase {
    if s == "Pulling fs layer"@ || s == "Waiting"@ || s == "Downloading"@ || s
        == "Verifying Checksum"@ || s == "Download complete"@ {
        LayerPhase::Downloading
    } else if s == "Extracting"@ {
        LayerPhase::Extracting
    } else if s == "Pull complete"@ {
        LayerPhase::Done
    } else if s == "Already exists"@ {
        LayerPhase::Cached
    } else {
        LayerPhase::Pending
    }
}

impl LayerPhase {
    /// The phase that a status text of Docker's stream stands for.
    pub fn from_status(s: &str) -> (r: Self)
        ensures
            r == phase_of(s@),
    {
        if same(s, "Pulling fs layer") || same(s, "Waiting") || same(s, "Downloading") || same(
            s,
            "Verifying Checksum",
        ) || same(s, "Download complete") {
            LayerPhase::Downloading
        } else if same(s, "Extracting") {
            LayerPhase::Extracting
        } else if same(s, "Pull complete") {
            LayerPhase::Done
        } else if same(s, "Already exists") {
            LayerPhase::Cached
        } else {
            LayerPhase::Pending
        }
    }
}

/// The layers of a pull, by their ids.
pub type Layers = Seq<(Seq<char>, LayerTracker)>;

/// How many layers are in a phase.
pub open spec fn count_in(layers: Layers, p: LayerPhase) -> nat
    decreases layers.len(),
{
    if layers.len() == 0 {
        0
    } else {
        count_in(layers.drop_last(), p) + if layers.last().1.phase == p {
            1nat
        } else {
            0nat
        }
    }
}

/// The bytes of a layer that are there. A layer that is extracted or done is there entirely.
pub open spec fn layer_loaded(t: LayerTracker) -> nat {
    match t.phase {
        LayerPhase::Downloading => t.current_bytes as nat,
        LayerPhase::Extracting => t.total_bytes as nat,
        LayerPhase::Done => t.total_bytes as nat,
        _ => 0,
    }
}

/// The bytes of a layer, where it has to be loaded.
pub open spec fn layer_to_load(t: LayerTracker) -> nat {
    match t.phase {
        LayerPhase::Downloading => t.total_bytes as nat,
        LayerPhase::Extracting => t.total_bytes as nat,
        LayerPhase::Done => t.total_bytes as nat,
        _ => 0,
    }
}

/// The bytes that are there.
pub open spec fn loaded(layers: Layers) -> nat
    decreases layers.len(),
{
    if layers.len() == 0 {
        0
    } else {
        loaded(layers.drop_last()) + layer_loaded(layers.last().1)
    }
}

/// The bytes of all layers that have to be loaded.
pub open spec fn to_load(layers: Layers) -> nat
    decreases layers.len(),
{
    if layers.len() == 0 {
        0
    } else {
        to_load(layers.drop_last()) + layer_to_load(layers.last().1)
    }
}

/// A count that does not exceed 16 bits.
pub open spec fn capped16(n: nat) -> u16 {
    if n > u16::MAX {
        u16::MAX
    } else {
        n as u16
    }
}

/// The bytes to load: what the manifest says, less what is there already; else what the stream
/// says.
pub open spec fn effective_total(layers: Layers, manifest_total: u64, cached: u64) -> u64 {
    if manifest_total > 0 {
        if manifest_total >= cached {
            (manifest_total - cached) as u64
        } else {
            0
        }
    } else {
        capped(to_load(layers))
    }
}

/// The number of layers: the manifest's where it knows of more than the stream.
pub open spec fn effective_layers(layers: Layers, manifest: Option<ManifestInfo>) -> u16 {
    let seen = capped16(layers.len());
    match manifest {
        Some(info) => {
            let known = (info.layer_sizes@.len() % 65536) as u16;
            if known > seen {
                known
            } else {
                seen
            }
        },
        None => seen,
    }
}

/// Layers that are there, downloaded or cached before.
pub open spec fn layers_finished(layers: Layers) -> u16 {
    capped16(count_in(layers, LayerPhase::Done) + count_in(layers, LayerPhase::Cached))
}

/// The phase of the pull as a whole.
pub open spec fn overall_phase(layers: Layers, manifest: Option<ManifestInfo>) -> PullPhase {
    if count_in(layers, LayerPhase::Downloading) == 0 && count_in(layers, LayerPhase::Extracting) > 0 {
        PullPhase::Extracting
    } else if layers_finished(layers) == effective_layers(layers, manifest) && effective_layers(
        layers,
        manifest,
    ) > 0 {
        PullPhase::Complete
    } else {
        PullPhase::Downloading
    }
}

/// The smaller of two numbers.
pub open spec fn least(a: u64, b: u64) -> u64 {
    if a <= b {
        a
    } else {
        b
    }
}

/// The greater of two numbers.
pub open spec fn greatest(a: u64, b: u64) -> u64 {
    if a >= b {
        a
    } else {
        b
    }
}

/// The state of all layers as one progress, and whether it shows anything. Sums beyond 64 bits
/// and counts beyond 16 bits are capped.
pub fn aggregate_progress(
    layers: &TextMap<LayerTracker>,
    manifest_total: u64,
    cached_subtract: u64,
    manifest_info: &Option<ManifestInfo>,
) -> (r: (ContainerPullProgress, bool))
    ensures
        r.0.container_name@.len() == 0,
        r.0.image@.len() == 0,
        layers@.len() == 0 ==> {
            &&& !r.1
            &&& r.0.total_bytes == 0
            &&& r.0.downloaded_bytes == 0
            &&& !r.0.tracking_available
            &&& r.0.phase == PullPhase::Downloading
            &&& r.0.layers_done == 0
            &&& r.0.layers_total == 0
        },
        layers@.len() > 0 ==> {
            let total = effective_total(layers@, manifest_total, cached_subtract);
            &&& r.1
            &&& r.0.total_bytes == total
            &&& r.0.downloaded_bytes == least(capped(loaded(layers@)), total)
            &&& r.0.tracking_available == (total > 0)
            &&& r.0.phase == overall_phase(layers@, *manifest_info)
            &&& r.0.layers_done == layers_finished(layers@)
            &&& r.0.layers_total == effective_layers(layers@, *manifest_info)
        },
        r.0.downloaded_bytes <= r.0.total_bytes,
        manifest_total == 0 && (forall|i: int|
            0 <= i < layers@.len() ==> (#[trigger] layers@[i]).1.phase == LayerPhase::Done
                || layers@[i].1.phase == LayerPhase::Cached) ==> r.0.downloaded_bytes
            == r.0.total_bytes,
{
    proof {
        if forall|i: int|
            0 <= i < layers@.len() ==> (#[trigger] layers@[i]).1.phase == LayerPhase::Done
                || layers@[i].1.phase == LayerPhase::Cached {
            law_finished_layers_are_loaded(layers@);
        }
    }
    proof {
        reveal_strlit("");
    }
    if layers.len() == 0 {
        return (ContainerPullProgress::new("", ""), false);
    }
    let ghost all = layers@;
    let mut stream_total: u64 = 0;
    let mut stream_current: u64 = 0;
    let mut downloading = false;
    let mut extracting = false;
    let mut done: u16 = 0;
    let mut seen: u16 = 0;
    let mut i: usize = 0;
    while i < layers.entries.len()
        invariant
            i <= layers.entries@.len(),
            all == layers@,
            stream_total == capped(to_load(all.take(i as int))),
            stream_current == capped(loaded(all.take(i as int))),
            downloading == (count_in(all.take(i as int), LayerPhase::Downloading) > 0),
            extracting == (count_in(all.take(i as int), LayerPhase::Extracting) > 0),
            done == layers_finished(all.take(i as int)),
            seen == capped16(i as nat),
        decreases layers.entries@.len() - i,
    {
        let ghost head = all.take(i + 1);
        assert(head.drop_last() =~= all.take(i as int));
        assert(head.last() == (layers.entries@[i as int].0@, layers.entries@[i as int].1));
        let t = layers.entries[i].1;
        seen = seen.saturating_add(1);
        match t.phase {
            LayerPhase::Cached => {
                done = done.saturating_add(1);
            },
            LayerPhase::Done => {
                done = done.saturating_add(1);
                stream_current = stream_current.saturating_add(t.total_bytes);
                stream_total = stream_total.saturating_add(t.total_bytes);
            },
            LayerPhase::Extracting => {
                extracting = true;
                stream_current = stream_current.saturating_add(t.total_bytes);
                stream_total = stream_total.saturating_add(t.total_bytes);
            },
            LayerPhase::Downloading => {
                downloading = true;
                stream_current = stream_current.saturating_add(t.current_bytes);
                stream_total = stream_total.saturating_add(t.total_bytes);
            },
            LayerPhase::Pending => {},
        }
        i = i + 1;
    }
    assert(all.take(i as int) =~= all);
    let total: u64 = if manifest_total > 0 {
        manifest_total.saturating_sub(cached_subtract)
    } else {
        stream_total
    };
    let mut layers_total: u16 = seen;
    if let Some(info) = manifest_info {
        let known: u16 = (info.layer_sizes.len() % 65536) as u16;
        if known > layers_total {
            layers_total = known;
        }
    }
    let phase = if !downloading && extracting {
        PullPhase::Extracting
    } else if done == layers_total && layers_total > 0 {
        PullPhase::Complete
    } else {
        PullPhase::Downloading
    };
    let downloaded: u64 = if stream_current <= total {
        stream_current
    } else {
        total
    };
    let base = ContainerPullProgress::new("", "");
    let p = ContainerPullProgress {
        total_bytes: total,
        downloaded_bytes: downloaded,
        tracking_available: total > 0,
        phase,
        layers_done: done,
        layers_total,
        ..base
    };
    (p, total > 0 || layers_total > 0)
}

impl ContainerPullProgress {
    /// Nothing is known yet.
    pub fn new(container_name: &str, image: &str) -> (r: Self)
        ensures
            r.container_name@ == container_name@,
            r.image@ == image@,
            r.total_bytes == 0,
            r.downloaded_bytes == 0,
            !r.tracking_available,
            r.phase == PullPhase::Downloading,
            r.layers_done == 0,
            r.layers_total == 0,
    {
        ContainerPullProgress {
            container_name: container_name.to_owned(),
            image: image.to_owned(),
            total_bytes: 0,
            downloaded_bytes: 0,
            tracking_available: false,
            phase: PullPhase::Downloading,
            layers_done: 0,
            layers_total: 0,
        }
    }

    /// The figures alone.
    pub fn figures(&self) -> (r: PullFigures)
        ensures
            r.total_bytes == self.total_bytes,
            r.downloaded_bytes == self.downloaded_bytes,
            r.tracking_available == self.tracking_available,
            r.phase == self.phase,
            r.layers_done == self.layers_done,
            r.layers_total == self.layers_total,
    {
        PullFigures {
            total_bytes: self.total_bytes,
            downloaded_bytes: self.downloaded_bytes,
            tracking_available: self.tracking_available,
            phase: self.phase,
            layers_done: self.layers_done,
            layers_total: self.layers_total,
        }
    }

    /// The same with other numbers of bytes; they count where there are any to load.
    pub fn with_progress(self, downloaded: u64, total: u64) -> (r: Self)
        ensures
            r == (ContainerPullProgress {
                downloaded_bytes: downloaded,
                total_bytes: total,
                tracking_available: total > 0,
                ..self
            }),
    {
        ContainerPullProgress {
            downloaded_bytes: downloaded,
            total_bytes: total,
            tracking_available: total > 0,
            ..self
        }
    }

    /// How much is loaded, in percent: a number from zero to a hundred.
    pub fn progress_percent(&self) -> (r: Approx)
        ensures
            r.wf(),
            r@ == percentage(self.downloaded_bytes, self.total_bytes),
            at_most(r@, 100),
    {
        proof {
            law_percentage_is_limited(self.downloaded_bytes, self.total_bytes);
        }
        percent(self.downloaded_bytes, self.total_bytes)
    }

    /// The same in another phase.
    pub fn with_phase(self, phase: PullPhase) -> (r: Self)
        ensures
            r == (ContainerPullProgress { phase, ..self }),
    {
        ContainerPullProgress { phase, ..self }
    }

    /// The same with other numbers of layers.
    pub fn with_layers(self, done: u16, total: u16) -> (r: Self)
        ensures
            r == (ContainerPullProgress { layers_done: done, layers_total: total, ..self }),
    {
        ContainerPullProgress { layers_done: done, layers_total: total, ..self }
    }
}

// ---------------------------------------------------------------------------
// Monitoring a pull
// ---------------------------------------------------------------------------

/// An event of Docker's stream.
#[derive(Debug)]
pub enum StreamEvent {
    /// The stream failed.
    Failed,
    /// A line without a layer.
    General,
    /// The state of a layer: its id, its status, and the bytes done and to do.
    Layer { id: String, status: Option<String>, current: Option<i64>, total: Option<i64> },
}

/// What to do after an event.
#[derive(Debug)]
pub enum MonitorAction {
    /// Read on.
    Continue,
    /// Show this progress and read on.
    Send(ContainerPullProgress),
    /// The pull took longer than half an hour: stop watching it.
    TimedOut,
    /// Nothing moved for five minutes: stop watching it.
    Stalled,
    /// The stream failed: stop watching it.
    Failed,
}

/// A pull that is watched. Times are in nanoseconds on one clock.
#[derive(Debug)]
pub struct PullMonitor {
    pub container_name: String,
    pub image: String,
    pub manifest: Option<ManifestInfo>,
    pub layers: TextMap<LayerTracker>,
    pub cached_subtract: u64,
    pub high_current: u64,
    pub high_total: u64,
    pub last_current: u64,
    pub started_at: u128,
    pub last_send: u128,
    pub last_change: u128,
}

pub const PULL_TIMEOUT_NANOS: u128 = 1_800_000_000_000;

pub const INACTIVITY_TIMEOUT_NANOS: u128 = 300_000_000_000;

pub const SEND_INTERVAL_NANOS: u128 = 500_000_000;

/// The time that has gone by.
pub open spec fn since(now: u128, then_: u128) -> nat {
    if now >= then_ {
        (now - then_) as nat
    } else {
        0
    }
}

fn elapsed(now: u128, then_: u128) -> (r: u128)
    ensures
        r == since(now, then_),
{
    if now >= then_ {
        now - then_
    } else {
        0
    }
}

/// The size that the manifest gives for a layer.
pub open spec fn manifest_size(manifest: Option<ManifestInfo>, id: Seq<char>) -> u64 {
    match manifest {
        Some(info) => match lookup(info.layer_sizes@, id) {
            Some(n) => n,
            None => 0,
        },
        None => 0,
    }
}

/// What is known of a layer before an event.
pub open spec fn tracker_before(layers: Layers, manifest: Option<ManifestInfo>, id: Seq<char>) -> LayerTracker {
    match lookup(layers, id) {
        Some(t) => t,
        None => LayerTracker {
            phase: LayerPhase::Pending,
            current_bytes: 0,
            total_bytes: 0,
            manifest_bytes: manifest_size(manifest, id),
        },
    }
}

/// What is known of a layer after an event: the bytes done never exceed those to do.
pub open spec fn tracker_after(
    t: LayerTracker,
    status: Seq<char>,
    current: Option<i64>,
    total: Option<i64>,
) -> LayerTracker {
    let p = LayerTracker { phase: phase_of(status), ..t };
    match (current, total) {
        (Some(c), Some(n)) => if n > 0 {
            LayerTracker {
                total_bytes: n as u64,
                current_bytes: if c < 0 || c > n {
                    n as u64
                } else {
                    c as u64
                },
                ..p
            }
        } else {
            p
        },
        _ => p,
    }
}

/// The layers and the bytes that need not be loaded, after an event on a layer. A layer that is
/// there already is subtracted once.
pub open spec fn layers_after(
    layers: Layers,
    manifest: Option<ManifestInfo>,
    cached: u64,
    id: Seq<char>,
    status: Seq<char>,
    current: Option<i64>,
    total: Option<i64>,
) -> (Layers, u64) {
    let t = tracker_after(tracker_before(layers, manifest, id), status, current, total);
    if t.phase == LayerPhase::Cached && t.manifest_bytes > 0 {
        (
            put(layers, id, LayerTracker { manifest_bytes: 0, ..t }),
            capped(cached as nat + t.manifest_bytes as nat),
        )
    } else {
        (put(layers, id, t), cached)
    }
}

impl PullMonitor {
    /// The bytes that the manifest announces.
    pub open spec fn manifest_total(&self) -> u64 {
        match self.manifest {
            Some(info) => info.total_bytes,
            None => 0,
        }
    }

    /// The layers and cached bytes after an event.
    pub open spec fn after_event(&self, ev: StreamEvent) -> (Layers, u64) {
        match ev {
            StreamEvent::Layer { id, status, current, total } => layers_after(
                self.layers@,
                self.manifest,
                self.cached_subtract,
                id@,
                match status {
                    Some(s) => s@,
                    None => Seq::empty(),
                },
                current,
                total,
            ),
            _ => (self.layers@, self.cached_subtract),
        }
    }

    /// A pull that begins to be watched, and the progress to show where a manifest is known.
    pub fn start(
        container_name: String,
        image: String,
        manifest: Option<ManifestInfo>,
        started_at: u128,
        now: u128,
    ) -> (r: (PullMonitor, Option<ContainerPullProgress>))
        ensures
            r.0.container_name == container_name,
            r.0.image == image,
            r.0.manifest == manifest,
            r.0.layers@.len() == 0,
            keyed(r.0.layers@),
            r.0.cached_subtract == 0,
            r.0.high_current == 0,
            r.0.high_total == 0,
            r.0.last_current == 0,
            r.0.started_at == started_at,
            r.0.last_send == now,
            r.0.last_change == now,
            match manifest {
                None => r.1 is None,
                Some(info) => {
                    &&& r.1 matches Some(p)
                    &&& p.container_name@ == container_name@
                    &&& p.image@ == image@
                    &&& p.downloaded_bytes == 0
                    &&& p.total_bytes == info.total_bytes
                    &&& p.tracking_available == (info.total_bytes > 0)
                    &&& p.phase == PullPhase::Downloading
                    &&& p.layers_done == 0
                    &&& p.layers_total == (info.layer_sizes@.len() % 65536) as u16
                },
            },
    {
        let first = match &manifest {
            None => None,
            Some(info) => {
                let n: u16 = (info.layer_sizes.len() % 65536) as u16;
                Some(
                    ContainerPullProgress::new(container_name.as_str(), image.as_str()).with_layers(
                        0,
                        n,
                    ).with_progress(0, info.total_bytes),
                )
            },
        };
        (
            PullMonitor {
                container_name,
                image,
                manifest,
                layers: TextMap::new(),
                cached_subtract: 0,
                high_current: 0,
                high_total: 0,
                last_current: 0,
                started_at,
                last_send: now,
                last_change: now,
            },
            first,
        )
    }

    fn track(&mut self, id: String, status: &str, current: Option<i64>, total: Option<i64>)
        ensures
            (final(self).layers@, final(self).cached_subtract) == layers_after(
                old(self).layers@,
                old(self).manifest,
                old(self).cached_subtract,
                id@,
                status@,
                current,
                total,
            ),
            keyed(old(self).layers@) ==> keyed(final(self).layers@),
            *final(self) == (PullMonitor {
                layers: final(self).layers,
                cached_subtract: final(self).cached_subtract,
                ..*old(self)
            }),
    {
        let before = match self.layers.get(id.as_str()) {
            Some(t) => *t,
            None => {
                let manifest_bytes: u64 = match &self.manifest {
                    Some(info) => match info.layer_sizes.get(id.as_str()) {
                        Some(n) => *n,
                        None => 0,
                    },
                    None => 0,
                };
                LayerTracker {
                    phase: LayerPhase::Pending,
                    current_bytes: 0,
                    total_bytes: 0,
                    manifest_bytes,
                }
            },
        };
        let mut t = LayerTracker { phase: LayerPhase::from_status(status), ..before };
        if let (Some(c), Some(n)) = (current, total) {
            if n > 0 {
                t.total_bytes = n as u64;
                t.current_bytes = if c < 0 || c > n {
                    n as u64
                } else {
                    c as u64
                };
            }
        }
        if t.phase == LayerPhase::Cached && t.manifest_bytes > 0 {
            self.cached_subtract = self.cached_subtract.saturating_add(t.manifest_bytes);
            t.manifest_bytes = 0;
        }
        self.layers.insert(id, t);
    }

    /// Takes an event of the stream at the time `now`. What is shown never goes back, neither in
    /// bytes done nor in bytes to do, and is shown at most twice a second.
    pub fn on_event(&mut self, ev: StreamEvent, now: u128) -> (r: MonitorAction)
        ensures
            r is TimedOut <==> now > old(self).started_at + 1_800_000_000_000,
            r is Stalled ==> now > old(self).last_change + 300_000_000_000,
            r is Failed ==> ev is Failed,
            r is Send ==> now >= old(self).last_send + 500_000_000 && final(self).last_send == now,
            r matches MonitorAction::Send(p) ==> p.image@ == old(self).image@ && p.container_name@
                == old(self).container_name@,
            !(r is Send) ==> final(self).high_current == old(self).high_current && final(self).high_total
                == old(self).high_total,
            keyed(old(self).layers@) ==> keyed(final(self).layers@),
            r matches MonitorAction::Send(p) ==> p.downloaded_bytes >= old(self).high_current
                && p.total_bytes >= old(self).high_total && final(self).high_current
                == p.downloaded_bytes && final(self).high_total == p.total_bytes,
            if since(now, old(self).started_at) > PULL_TIMEOUT_NANOS {
                r is TimedOut && *final(self) == *old(self)
            } else if since(now, old(self).last_change) > INACTIVITY_TIMEOUT_NANOS {
                r is Stalled && *final(self) == *old(self)
            } else if ev is Failed {
                r is Failed && *final(self) == *old(self)
            } else {
                let (layers, cached) = old(self).after_event(ev);
                let total = greatest(
                    effective_total(layers, old(self).manifest_total(), cached),
                    old(self).high_total,
                );
                let current = greatest(
                    least(
                        capped(loaded(layers)),
                        effective_total(layers, old(self).manifest_total(), cached),
                    ),
                    old(self).high_current,
                );
                &&& final(self).layers@ == layers
                &&& final(self).cached_subtract == cached
                &&& final(self).manifest == old(self).manifest
                &&& final(self).container_name == old(self).container_name
                &&& final(self).image == old(self).image
                &&& final(self).started_at == old(self).started_at
                &&& if since(now, old(self).last_send) >= SEND_INTERVAL_NANOS && layers.len() > 0 {
                    &&& r matches MonitorAction::Send(p)
                    &&& p.container_name@ == old(self).container_name@
                    &&& p.image@ == old(self).image@
                    &&& p.total_bytes == total
                    &&& p.downloaded_bytes == current
                    &&& p.tracking_available == (total > 0)
                    &&& p.phase == overall_phase(layers, old(self).manifest)
                    &&& p.layers_done == layers_finished(layers)
                    &&& p.layers_total == effective_layers(layers, old(self).manifest)
                    &&& final(self).high_total == total
                    &&& final(self).high_current == current
                    &&& final(self).last_current == current
                    &&& final(self).last_send == now
                    &&& final(self).last_change == if current != old(self).last_current {
                        now
                    } else {
                        old(self).last_change
                    }
                } else {
                    &&& r is Continue
                    &&& final(self).high_total == old(self).high_total
                    &&& final(self).high_current == old(self).high_current
                    &&& final(self).last_current == old(self).last_current
                    &&& final(self).last_send == old(self).last_send
                    &&& final(self).last_change == old(self).last_change
                }
            },
    {
        if elapsed(now, self.started_at) > PULL_TIMEOUT_NANOS {
            return MonitorAction::TimedOut;
        }
        if elapsed(now, self.last_change) > INACTIVITY_TIMEOUT_NANOS {
            return MonitorAction::Stalled;
        }
        match ev {
            StreamEvent::Failed => {
                return MonitorAction::Failed;
            },
            StreamEvent::General => {},
            StreamEvent::Layer { id, status, current, total } => {
                let text = match status {
                    Some(s) => s,
                    None => String::new(),
                };
                self.track(id, text.as_str(), current, total);
            },
        }
        if elapsed(now, self.last_send) >= SEND_INTERVAL_NANOS {
            let manifest_total: u64 = match &self.manifest {
                Some(info) => info.total_bytes,
                None => 0,
            };
            let (p, has_data) = aggregate_progress(
                &self.layers,
                manifest_total,
                self.cached_subtract,
                &self.manifest,
            );
            if has_data {
                if p.total_bytes > self.high_total {
                    self.high_total = p.total_bytes;
                }
                if p.downloaded_bytes > self.high_current {
                    self.high_current = p.downloaded_bytes;
                }
                if self.high_current != self.last_current {
                    self.last_change = now;
                    self.last_current = self.high_current;
                }
                self.last_send = now;
                return MonitorAction::Send(
                    ContainerPullProgress::new(
                        self.container_name.as_str(),
                        self.image.as_str(),
                    ).with_progress(self.high_current, self.high_total).with_phase(
                        p.phase,
                    ).with_layers(p.layers_done, p.layers_total),
                );
            }
        }
        MonitorAction::Continue
    }
}

// ---------------------------------------------------------------------------
// Laws
// ---------------------------------------------------------------------------

/// No more is there than there is to load, as long as that holds of each layer.
pub proof fn law_loaded_bytes_are_bounded(layers: Layers)
    requires
        forall|i: int|
            0 <= i < layers.len() ==> (#[trigger] layers[i]).1.current_bytes <= layers[i].1.total_bytes,
    ensures
        loaded(layers) <= to_load(layers),
    decreases layers.len(),
{
    if layers.len() > 0 {
        let d = layers.drop_last();
        assert forall|i: int| 0 <= i < d.len() implies (#[trigger] d[i]).1.current_bytes
            <= d[i].1.total_bytes by {
            assert(d[i] == layers[i]);
        }
        law_loaded_bytes_are_bounded(d);
        assert(layers[layers.len() - 1] == layers.last());
    }
}

/// An event leaves every layer with no more bytes done than there are to do.
pub proof fn law_layers_stay_bounded(
    layers: Layers,
    manifest: Option<ManifestInfo>,
    cached: u64,
    id: Seq<char>,
    status: Seq<char>,
    current: Option<i64>,
    total: Option<i64>,
)
    requires
        forall|i: int|
            0 <= i < layers.len() ==> (#[trigger] layers[i]).1.current_bytes <= layers[i].1.total_bytes,
    ensures
        ({
            let after = layers_after(layers, manifest, cached, id, status, current, total).0;
            forall|i: int|
                0 <= i < after.len() ==> (#[trigger] after[i]).1.current_bytes
                    <= after[i].1.total_bytes
        }),
{
    crate::textmap::lemma_key_index(layers, id);
}

/// The bytes shown as done never exceed the bytes shown as to do, whatever the manifest says.
pub proof fn law_shown_bytes_bounded(layers: Layers, manifest_total: u64, cached: u64, high_current: u64, high_total: u64)
    requires
        high_current <= high_total,
    ensures
        ({
            let t = effective_total(layers, manifest_total, cached);
            greatest(least(capped(loaded(layers)), t), high_current) <= greatest(t, high_total)
        }),
{
}

/// A cached layer is taken off the total once: a second report of it changes nothing.
pub proof fn law_cached_layer_counts_once(
    layers: Layers,
    manifest: Option<ManifestInfo>,
    cached: u64,
    id: Seq<char>,
)
    ensures
        ({
            let (l1, c1) = layers_after(layers, manifest, cached, id, "Already exists"@, None, None);
            layers_after(l1, manifest, c1, id, "Already exists"@, None, None) == (l1, c1)
        }),
{
    reveal_strlit("Already exists");
    reveal_strlit("Pulling fs layer");
    reveal_strlit("Waiting");
    reveal_strlit("Downloading");
    reveal_strlit("Verifying Checksum");
    reveal_strlit("Download complete");
    reveal_strlit("Extracting");
    reveal_strlit("Pull complete");
    let s = "Already exists"@;
    assert(s.len() == 14);
    assert(phase_of(s) == LayerPhase::Cached) by {
        assert(s[0] == 'A');
        assert("Waiting"@[0] == 'W');
        assert("Pulling fs layer"@[0] == 'P');
        assert("Downloading"@[0] == 'D');
        assert("Verifying Checksum"@[0] == 'V');
        assert("Download complete"@[0] == 'D');
        assert("Extracting"@[0] == 'E');
        assert("Pull complete"@[0] == 'P');
    }
    let (l1, c1) = layers_after(layers, manifest, cached, id, s, None, None);
    let t = LayerTracker {
        phase: LayerPhase::Cached,
        manifest_bytes: 0,
        ..tracker_before(layers, manifest, id)
    };
    crate::textmap::law_put_then_lookup(layers, id, t, id);
    crate::textmap::lemma_key_index(layers, id);
    crate::textmap::lemma_key_index(l1, id);
    assert(l1 == put(layers, id, t));
    assert(lookup(l1, id) == Some(t));
    let (l2, c2) = layers_after(l1, manifest, c1, id, s, None, None);
    assert(l2 =~= l1);
}

proof fn lemma_remove_last_or_before(layers: Layers, i: int)
    requires
        0 <= i < layers.len() - 1,
    ensures
        layers.remove(i).drop_last() == layers.drop_last().remove(i),
        layers.remove(i).last() == layers.last(),
{
    assert(layers.remove(i).drop_last() =~= layers.drop_last().remove(i));
}

/// Each layer adds its own bytes, wherever it stands: what has come of it while it is downloaded, all
/// of it once it is extracted or done, and nothing where it is there already or still waits. As long
/// as it has to be loaded, all of it counts as to be loaded.
pub proof fn law_layers_add_up(layers: Layers, i: int)
    requires
        0 <= i < layers.len(),
    ensures
        ({
            let t = layers[i].1;
            let others = layers.remove(i);
            &&& t.phase == LayerPhase::Downloading ==> loaded(layers) == loaded(others)
                + t.current_bytes && to_load(layers) == to_load(others) + t.total_bytes
            &&& t.phase == LayerPhase::Extracting || t.phase == LayerPhase::Done ==> loaded(layers)
                == loaded(others) + t.total_bytes && to_load(layers) == to_load(others)
                + t.total_bytes
            &&& t.phase == LayerPhase::Pending || t.phase == LayerPhase::Cached ==> loaded(layers)
                == loaded(others) && to_load(layers) == to_load(others)
        }),
        loaded(Seq::<(Seq<char>, LayerTracker)>::empty()) == 0,
        to_load(Seq::<(Seq<char>, LayerTracker)>::empty()) == 0,
    decreases layers.len(),
{
    if i == layers.len() - 1 {
        assert(layers.remove(i) =~= layers.drop_last());
    } else {
        law_layers_add_up(layers.drop_last(), i);
        lemma_remove_last_or_before(layers, i);
        assert(layers.drop_last()[i] == layers[i]);
    }
}

/// Where every layer is done or was there already, all there is to load has been loaded.
pub proof fn law_finished_layers_are_loaded(layers: Layers)
    requires
        forall|i: int|
            0 <= i < layers.len() ==> (#[trigger] layers[i]).1.phase == LayerPhase::Done
                || layers[i].1.phase == LayerPhase::Cached,
    ensures
        loaded(layers) == to_load(layers),
    decreases layers.len(),
{
    if layers.len() > 0 {
        let d = layers.drop_last();
        assert forall|i: int| 0 <= i < d.len() implies (#[trigger] d[i]).1.phase == LayerPhase::Done
            || d[i].1.phase == LayerPhase::Cached by {
            assert(d[i] == layers[i]);
        }
        law_finished_layers_are_loaded(d);
        assert(layers[layers.len() - 1] == layers.last());
    }
}

/// A layer that goes on from being downloaded to being extracted or done never lowers the bytes that
/// are there, and leaves those to load as they are; neither does one that has got more bytes.
pub proof fn law_layers_go_forward(layers: Layers, i: int, t: LayerTracker)
    requires
        0 <= i < layers.len(),
        layers[i].1.current_bytes <= layers[i].1.total_bytes,
        t.total_bytes == layers[i].1.total_bytes,
        layers[i].1.phase == LayerPhase::Downloading,
        t.phase == LayerPhase::Extracting || t.phase == LayerPhase::Done || (t.phase
            == LayerPhase::Downloading && t.current_bytes >= layers[i].1.current_bytes),
    ensures
        loaded(layers.update(i, (layers[i].0, t))) >= loaded(layers),
        to_load(layers.update(i, (layers[i].0, t))) == to_load(layers),
{
    let after = layers.update(i, (layers[i].0, t));
    law_layers_add_up(layers, i);
    law_layers_add_up(after, i);
    assert(after.remove(i) =~= layers.remove(i));
}

/// What is shown of a pull once all its layers are done or were there already is all there is to
/// show, where the manifest does not announce more than the layers have; and while it announces some,
/// what was there already and what is to be loaded make up what it announces.
pub proof fn law_finished_pulls_are_full(layers: Layers, manifest_total: u64, cached: u64)
    ensures
        (forall|i: int|
            0 <= i < layers.len() ==> (#[trigger] layers[i]).1.phase == LayerPhase::Done
                || layers[i].1.phase == LayerPhase::Cached) && manifest_total <= cached + to_load(
            layers,
        ) ==> least(
            capped(loaded(layers)),
            effective_total(layers, manifest_total, cached),
        ) == effective_total(layers, manifest_total, cached),
        0 < manifest_total && cached <= manifest_total ==> effective_total(
            layers,
            manifest_total,
            cached,
        ) + cached == manifest_total,
        manifest_total == 0 && to_load(layers) <= u64::MAX ==> effective_total(
            layers,
            manifest_total,
            cached,
        ) == to_load(layers),
{
    if forall|i: int|
        0 <= i < layers.len() ==> (#[trigger] layers[i]).1.phase == LayerPhase::Done
            || layers[i].1.phase == LayerPhase::Cached {
        law_finished_layers_are_loaded(layers);
    }
}

/// How many layers are in a phase: each layer counts in its own, and in no other.
pub proof fn law_layers_are_counted_once(layers: Layers, p: LayerPhase, i: int)
    ensures
        count_in(layers, p) <= layers.len(),
        count_in(layers, LayerPhase::Pending) + count_in(layers, LayerPhase::Downloading) + count_in(
            layers,
            LayerPhase::Extracting,
        ) + count_in(layers, LayerPhase::Done) + count_in(layers, LayerPhase::Cached)
            == layers.len(),
        0 <= i < layers.len() ==> count_in(layers, layers[i].1.phase) > 0,
        count_in(layers, p) > 0 ==> exists|j: int|
            0 <= j < layers.len() && (#[trigger] layers[j]).1.phase == p,
    decreases layers.len(),
{
    if layers.len() > 0 {
        let d = layers.drop_last();
        law_layers_are_counted_once(d, p, i);
        if 0 <= i < d.len() {
            assert(d[i] == layers[i]);
        }
        if count_in(d, p) > 0 {
            let j = choose|j: int| 0 <= j < d.len() && (#[trigger] d[j]).1.phase == p;
            assert(layers[j].1.phase == p);
        }
        if layers.last().1.phase == p {
            assert(layers[layers.len() - 1].1.phase == p);
        }
    }
}

/// A pull is complete only where no layer waits, is downloaded or is extracted, and it is complete
/// where all are there and no more are announced; it is being extracted only where a layer is and
/// none is downloaded any more.
pub proof fn law_phases_tell_the_truth(layers: Layers, manifest: Option<ManifestInfo>, i: int)
    requires
        layers.len() < 65536,
    ensures
        overall_phase(layers, manifest) == PullPhase::Complete && 0 <= i < layers.len()
            ==> layers[i].1.phase == LayerPhase::Done || layers[i].1.phase == LayerPhase::Cached,
        layers.len() > 0 && (manifest matches Some(m) ==> m.layer_sizes@.len() <= layers.len()) && (
        forall|j: int|
            0 <= j < layers.len() ==> (#[trigger] layers[j]).1.phase == LayerPhase::Done
                || layers[j].1.phase == LayerPhase::Cached) ==> overall_phase(layers, manifest)
            == PullPhase::Complete && layers_finished(layers) == layers.len(),
        overall_phase(layers, manifest) == PullPhase::Extracting ==> (exists|j: int|
            0 <= j < layers.len() && (#[trigger] layers[j]).1.phase == LayerPhase::Extracting) && !(
        exists|j: int|
            0 <= j < layers.len() && (#[trigger] layers[j]).1.phase == LayerPhase::Downloading),
        layers_finished(layers) <= layers.len() <= effective_layers(layers, manifest),
{
    law_layers_are_counted_once(layers, LayerPhase::Pending, i);
    law_layers_are_counted_once(layers, LayerPhase::Downloading, i);
    law_layers_are_counted_once(layers, LayerPhase::Extracting, i);
    if overall_phase(layers, manifest) == PullPhase::Extracting {
        assert forall|j: int| 0 <= j < layers.len() implies (#[trigger] layers[j]).1.phase
            != LayerPhase::Downloading by {
            law_layers_are_counted_once(layers, LayerPhase::Downloading, j);
        }
    }
    if forall|j: int|
        0 <= j < layers.len() ==> (#[trigger] layers[j]).1.phase == LayerPhase::Done
            || layers[j].1.phase == LayerPhase::Cached {
        assert(count_in(layers, LayerPhase::Downloading) == 0);
        assert(count_in(layers, LayerPhase::Extracting) == 0);
        assert(count_in(layers, LayerPhase::Pending) == 0);
    }
}

/// An event on a layer takes the numbers that it gives, where they can be true, keeps those of
/// before where it gives none, and leaves all other layers alone.
pub proof fn law_events_touch_their_layer(
    layers: Layers,
    manifest: Option<ManifestInfo>,
    cached: u64,
    id: Seq<char>,
    status: Seq<char>,
    current: Option<i64>,
    total: Option<i64>,
    other: Seq<char>,
)
    ensures
        ({
            let after = layers_after(layers, manifest, cached, id, status, current, total).0;
            let t = lookup(after, id)->0;
            &&& lookup(after, id) is Some
            &&& t.phase == phase_of(status)
            &&& current is Some && total is Some && 0 <= current->0 <= total->0 && 0 < total->0
                ==> t.current_bytes == current->0 && t.total_bytes == total->0
            &&& current is None || total is None ==> match lookup(layers, id) {
                Some(b) => t.current_bytes == b.current_bytes && t.total_bytes == b.total_bytes,
                None => t.current_bytes == 0 && t.total_bytes == 0,
            }
            &&& other != id ==> lookup(after, other) == lookup(layers, other)
            &&& layers_after(layers, manifest, cached, id, status, current, total).1 >= cached
        }),
{
    let b = tracker_before(layers, manifest, id);
    let t = tracker_after(b, status, current, total);
    law_put_then_lookup(layers, id, t, other);
    law_put_then_lookup(layers, id, LayerTracker { manifest_bytes: 0, ..t }, other);
}

/// Newer figures that are greater are taken over; the phase and the layers are always the newer ones.
pub proof fn law_newer_figures_are_taken(a: PullFigures, b: PullFigures)
    ensures
        advanced(a, b).downloaded_bytes == a.downloaded_bytes || advanced(a, b).downloaded_bytes
            == b.downloaded_bytes,
        advanced(a, b).downloaded_bytes >= b.downloaded_bytes,
        advanced(a, b).total_bytes == a.total_bytes || advanced(a, b).total_bytes == b.total_bytes,
        advanced(a, b).total_bytes >= b.total_bytes,
        advanced(a, b).phase == b.phase,
        advanced(a, b).layers_done == b.layers_done,
        advanced(a, b).layers_total == b.layers_total,
        b.total_bytes > 0 ==> advanced(a, b).tracking_available,
{
}

/// What is said of the pull as a whole changes no layer, and what is said of a layer only that one.
pub proof fn law_general_events_change_no_layer(m: PullMonitor, ev: StreamEvent, other: Seq<char>)
    ensures
        !(ev is Layer) ==> m.after_event(ev) == (m.layers@, m.cached_subtract),
        ev matches StreamEvent::Layer { id, status, current, total } ==> other != id@ ==> lookup(
            m.after_event(ev).0,
            other,
        ) == lookup(m.layers@, other),
        ev matches StreamEvent::Layer { id, status, current, total } ==> lookup(
            m.after_event(ev).0,
            id@,
        ) is Some,
{
    if let StreamEvent::Layer { id, status, current, total } = ev {
        law_events_touch_their_layer(
            m.layers@,
            m.manifest,
            m.cached_subtract,
            id@,
            match status {
                Some(s) => s@,
                None => Seq::empty(),
            },
            current,
            total,
            other,
        );
    }
}

/// A pull is given up after half an hour, or after five minutes without a change, and is shown every
/// half second.
pub proof fn law_pulls_are_watched_in_time(now: u128, earlier: u128)
    ensures
        since(now, earlier) > PULL_TIMEOUT_NANOS <==> now > earlier + 30 * 60 * 1_000_000_000,
        since(now, earlier) > INACTIVITY_TIMEOUT_NANOS <==> now > earlier + 5 * 60 * 1_000_000_000,
        since(now, earlier) >= SEND_INTERVAL_NANOS <==> now >= earlier + 500_000_000,
{
}

/// There are as many layers as were seen, or as the manifest knows of where these are more.
pub proof fn law_known_layers_count(layers: Layers, info: ManifestInfo)
    requires
        layers.len() < 65536,
        info.layer_sizes@.len() < 65536,
    ensures
        effective_layers(layers, None) == layers.len(),
        effective_layers(layers, Some(info)) >= layers.len(),
        effective_layers(layers, Some(info)) >= info.layer_sizes@.len(),
        effective_layers(layers, Some(info)) == layers.len() || effective_layers(layers, Some(info))
            == info.layer_sizes@.len(),
{
}

/// Of a pull of which nothing is known nothing has been loaded, and its bytes are not known.
pub proof fn law_unknown_pulls_have_no_figures()
    ensures
        no_figures().total_bytes == 0 && no_figures().downloaded_bytes == 0,
        !no_figures().tracking_available,
        no_figures().layers_done == 0 && no_figures().layers_total == 0,
        no_figures().phase == PullPhase::Downloading,
{
}

} // verus!
