//! What containers and pods use.

use vstd::prelude::*;
use crate::agent::{number_in, usage_in, usage_of};
use crate::number::{
    decimal, digit, law_decimal_reads_back, law_only_digits_make_numbers,
    law_signed_decimal_reads_back, lemma_decimal, number_upto, parse_i64, parse_u64, signed_decimal,
    signed_number, u64_text,
};
use crate::order::{
    in_order, law_sorting, lemma_ranked_contains, lemma_ranked_map, ranked, sort_ranked, HasRank,
    Ranked,
};
use crate::text::{
    add_once, begins, chars_of, has_sub, joined_once, lemma_has_in, lemma_pieces_head,
    lemma_pieces_nonempty, no_texts, opt_view, pieces, same, split, split_words, starts_with, string_of_range, trim, trimmed, views, with_text,
    words,
};
use crate::textmap::{law_put_then_lookup, lookup, put, TextMap};

verus! {

// ---------------------------------------------------------------------------
// Processor time
// ---------------------------------------------------------------------------

/// A share of processor time: so many microseconds used in so many microseconds. One core used
/// without a pause is a share of one.
#[derive(Debug, Clone, Copy, PartialEq, Eq, Structural)]
pub struct CpuShare {
    pub usage: u64,
    pub time: u64,
}

/// The last measurement of a container.
#[derive(Debug, Clone, Copy, PartialEq, Eq, Structural)]
pub struct CachedCpuStats {
    pub usage_usec: u64,
    pub timestamp_usec: u64,
    pub share: CpuShare,
}

/// Measurements closer together than so many microseconds are too noisy.
pub const MIN_SAMPLE_USEC: u64 = 100000;

/// No share is above so many cores.
pub const MAX_CORES: u64 = 64;

/// A share that grows by more than so many cores at once is suspicious.
pub const SPIKE_CORES: u64 = 3;

/// A share of at most so many cores is not.
pub const SPIKE_MIN_CORES: u64 = 5;

/// The share of a container that does nothing.
pub open spec fn idle() -> CpuShare {
    CpuShare { usage: 0, time: 1 }
}

impl CpuShare {
    /// Whether this is a share at all.
    pub open spec fn wf(&self) -> bool {
        self.time > 0
    }

    /// Whether it is more than so many cores.
    pub open spec fn above(&self, cores: nat) -> bool {
        self.usage > cores * self.time
    }

    /// Whether it is more than another by more than so many cores.
    pub open spec fn above_by(&self, other: CpuShare, cores: nat) -> bool {
        self.usage * other.time > self.time * (other.usage + cores * other.time)
    }

    /// This share, or so many cores where it is more.
    pub open spec fn capped(&self, cores: nat) -> CpuShare {
        if self.above(cores) {
            CpuShare { usage: cores as u64, time: 1 }
        } else {
            *self
        }
    }

    fn is_above(&self, cores: u64) -> (r: bool)
        ensures
            r == self.above(cores as nat),
    {
        assert(cores * self.time <= 0xffff_ffff_ffff_ffff * 0xffff_ffff_ffff_ffff)
            by (nonlinear_arith)
            requires
                cores <= 0xffff_ffff_ffff_ffff,
                self.time <= 0xffff_ffff_ffff_ffff,
        ;
        self.usage as u128 > cores as u128 * self.time as u128
    }

    fn cap(&self, cores: u64) -> (r: CpuShare)
        ensures
            r == self.capped(cores as nat),
    {
        if self.is_above(cores) {
            CpuShare { usage: cores, time: 1 }
        } else {
            *self
        }
    }

    fn is_above_by(&self, other: &CpuShare, cores: u64) -> (r: bool)
        requires
            cores <= 1000,
        ensures
            r == self.above_by(*other, cores as nat),
    {
        assert(cores * other.time <= 1000 * 0xffff_ffff_ffff_ffff && cores * other.time >= 0)
            by (nonlinear_arith)
            requires
                cores <= 1000,
                other.time <= 0xffff_ffff_ffff_ffff,
        ;
        let b: u128 = other.usage as u128 + cores as u128 * other.time as u128;
        assert(self.usage * other.time <= 0xffff_ffff_ffff_ffff * 0xffff_ffff_ffff_ffff)
            by (nonlinear_arith)
            requires
                self.usage <= 0xffff_ffff_ffff_ffff,
                other.time <= 0xffff_ffff_ffff_ffff,
        ;
        let a: u128 = self.usage as u128 * other.time as u128;
        match (self.time as u128).checked_mul(b) {
            Some(c) => a > c,
            None => false,
        }
    }
}

/// The difference, or 0 where it is negative.
pub open spec fn difference(a: u64, b: u64) -> u64 {
    if a >= b {
        (a - b) as u64
    } else {
        0
    }
}

/// The share between two measurements, before suspicious ones are rejected. Measurements that are
/// too close together repeat the last share.
pub open spec fn raw_share(p: CachedCpuStats, usage: u64, now: u64, cap_first: bool) -> CpuShare {
    let t = difference(now, p.timestamp_usec);
    if t >= MIN_SAMPLE_USEC {
        let s = CpuShare { usage: difference(usage, p.usage_usec), time: t };
        if cap_first {
            s.capped(MAX_CORES as nat)
        } else {
            s
        }
    } else {
        p.share
    }
}

/// Whether a share is suspicious after another.
pub open spec fn is_spike(s: CpuShare, last: CpuShare) -> bool {
    last.usage > 0 && s.above_by(last, SPIKE_CORES as nat) && s.above(SPIKE_MIN_CORES as nat)
}

/// The share between two measurements. `cap_first` says whether shares are limited before or after
/// suspicious ones are rejected.
pub open spec fn measured_share(
    prev: Option<CachedCpuStats>,
    usage: u64,
    now: u64,
    cap_first: bool,
) -> CpuShare {
    match prev {
        None => idle(),
        Some(p) => {
            let raw = raw_share(p, usage, now, cap_first);
            if is_spike(raw, p.share) {
                p.share
            } else if cap_first {
                raw
            } else {
                raw.capped(MAX_CORES as nat)
            }
        },
    }
}

/// The last measurement, with a share above nothing where there was one.
pub open spec fn remembered(
    prev: Option<CachedCpuStats>,
    usage: u64,
    now: u64,
    share: CpuShare,
) -> CachedCpuStats {
    CachedCpuStats {
        usage_usec: usage,
        timestamp_usec: now,
        share: if share.usage > 0 {
            share
        } else {
            match prev {
                Some(p) => p.share,
                None => idle(),
            }
        },
    }
}

/// The share of a container now, at most all processors, and what to remember of it.
pub fn calculate_cpu_percent(
    prev: &Option<CachedCpuStats>,
    usage_usec: u64,
    now_usec: u64,
    num_cpus: u64,
    cap_first: bool,
) -> (r: (CpuShare, CachedCpuStats))
    ensures
        r.0 == measured_share(*prev, usage_usec, now_usec, cap_first).capped(num_cpus as nat),
        r.1 == remembered(
            *prev,
            usage_usec,
            now_usec,
            measured_share(*prev, usage_usec, now_usec, cap_first),
        ),
        r.1.usage_usec == usage_usec && r.1.timestamp_usec == now_usec,
        *prev is None ==> r.0.usage == 0,
        *prev matches Some(p) ==> (now_usec >= p.timestamp_usec + 100_000 && usage_usec
            >= p.usage_usec && usage_usec - p.usage_usec <= 5 * (now_usec - p.timestamp_usec)
            && usage_usec - p.usage_usec <= num_cpus * (now_usec - p.timestamp_usec) ==> r.0
            == CpuShare {
            usage: (usage_usec - p.usage_usec) as u64,
            time: (now_usec - p.timestamp_usec) as u64,
        }),
{
    let share = match prev {
        None => CpuShare { usage: 0, time: 1 },
        Some(p) => {
            let t: u64 = if now_usec >= p.timestamp_usec {
                now_usec - p.timestamp_usec
            } else {
                0
            };
            let u: u64 = if usage_usec >= p.usage_usec {
                usage_usec - p.usage_usec
            } else {
                0
            };
            let raw = if t >= MIN_SAMPLE_USEC {
                let s = CpuShare { usage: u, time: t };
                if cap_first {
                    s.cap(MAX_CORES)
                } else {
                    s
                }
            } else {
                p.share
            };
            if p.share.usage > 0 && raw.is_above_by(&p.share, SPIKE_CORES) && raw.is_above(
                SPIKE_MIN_CORES,
            ) {
                p.share
            } else if cap_first {
                raw
            } else {
                raw.cap(MAX_CORES)
            }
        },
    };
    let keep = if share.usage > 0 {
        share
    } else {
        match prev {
            Some(p) => p.share,
            None => CpuShare { usage: 0, time: 1 },
        }
    };
    (
        share.cap(num_cpus),
        CachedCpuStats { usage_usec, timestamp_usec: now_usec, share: keep },
    )
}

// ---------------------------------------------------------------------------
// Control groups
// ---------------------------------------------------------------------------

/// Which version of control groups is in use.
#[derive(Debug, Clone, Copy, PartialEq, Eq, Structural)]
pub enum CgroupVersion {
    V1,
    V2,
}

/// The version in use, given whether the file with the controllers of the second is there.
pub fn detect_cgroup_version(controllers_there: bool) -> (r: CgroupVersion)
    ensures
        r == if controllers_there {
            CgroupVersion::V2
        } else {
            CgroupVersion::V1
        },
{
    if controllers_there {
        CgroupVersion::V2
    } else {
        CgroupVersion::V1
    }
}

/// What the files of a container say: a quota and its period, and sizes in bytes. Nothing stands
/// for no limit.
#[derive(Debug, Clone, Copy)]
pub struct RawUsage {
    pub usage_usec: u64,
    pub cpu_limit: Option<(u64, u64)>,
    pub memory_used: u64,
    pub memory_limit: Option<u64>,
}

/// A quota with its period, where both are above nothing.
pub open spec fn quota(q: Option<nat>, p: Option<nat>) -> Option<(u64, u64)> {
    match (q, p) {
        (Some(a), Some(b)) => if a > 0 && b > 0 {
            Some((a as u64, b as u64))
        } else {
            None
        },
        _ => None,
    }
}

/// The limit in the file `cpu.max`.
pub open spec fn cpu_limit_in(content: Seq<char>) -> Option<(u64, u64)> {
    let w = words(content);
    if w.len() >= 2 {
        quota(number_upto(w[0], u64::MAX as nat), number_upto(w[1], u64::MAX as nat))
    } else {
        None
    }
}

/// A limit in bytes that is above nothing and at most `max`.
pub open spec fn memory_limit_in(content: Option<Seq<char>>, max: nat) -> Option<u64> {
    match content {
        Some(s) => match number_upto(trimmed(s), max) {
            Some(n) => if n > 0 {
                Some(n as u64)
            } else {
                None
            },
            None => None,
        },
        None => None,
    }
}

/// The text of an optional file; an absent one is empty.
pub open spec fn content_of(o: Option<String>) -> Seq<char> {
    match o {
        Some(s) => s@,
        None => Seq::empty(),
    }
}

fn memory_limit_of(content: &Option<String>, max: u64) -> (r: Option<u64>)
    ensures
        r == memory_limit_in(opt_view(*content), max as nat),
{
    match content {
        Some(s) => match crate::number::parse_upto(trim(s.as_str()).as_str(), max) {
            Some(n) => if n > 0 {
                Some(n)
            } else {
                None
            },
            None => None,
        },
        None => None,
    }
}

fn number_of(content: &Option<String>) -> (r: u64)
    ensures
        r == number_in(opt_view(*content)),
{
    match content {
        Some(s) => match parse_u64(trim(s.as_str()).as_str()) {
            Some(n) => n,
            None => 0,
        },
        None => 0,
    }
}

fn cpu_limit_of(content: &str) -> (r: Option<(u64, u64)>)
    ensures
        r == cpu_limit_in(content@),
{
    let w = split_words(content);
    assert(views(w@).len() == w@.len());
    if w.len() < 2 {
        return None;
    }
    assert(views(w@)[0] == w@[0]@);
    assert(views(w@)[1] == w@[1]@);
    match (parse_u64(w[0].as_str()), parse_u64(w[1].as_str())) {
        (Some(q), Some(p)) => if q > 0 && p > 0 {
            Some((q, p))
        } else {
            None
        },
        _ => None,
    }
}

/// What a container uses, from its files in the second version. Quota and period are whole
/// numbers, as the kernel writes them; the word `max` is no limit.
pub open spec fn usage_v2(
    cpu_stat: Option<String>,
    cpu_max: Option<String>,
    memory_current: Option<String>,
    memory_max: Option<String>,
) -> RawUsage {
    RawUsage {
        usage_usec: usage_in(content_of(cpu_stat)),
        cpu_limit: cpu_limit_in(content_of(cpu_max)),
        memory_used: number_in(opt_view(memory_current)),
        memory_limit: memory_limit_in(opt_view(memory_max), u64::MAX as nat),
    }
}

/// What a container uses, from its files in the second version. Quota and period are whole
/// numbers, as the kernel writes them; the word `max` is no limit.
pub fn read_cgroup_v2_stats(
    cpu_stat: &Option<String>,
    cpu_max: &Option<String>,
    memory_current: &Option<String>,
    memory_max: &Option<String>,
) -> (r: RawUsage)
    ensures
        r == usage_v2(*cpu_stat, *cpu_max, *memory_current, *memory_max),
{
    let usage_usec: u64 = match cpu_stat {
        Some(s) => usage_of(s.as_str()),
        None => {
            let none = String::new();
            assert(none@ =~= Seq::<char>::empty());
            usage_of(none.as_str())
        },
    };
    let cpu_limit = match cpu_max {
        Some(s) => cpu_limit_of(s.as_str()),
        None => {
            let none = String::new();
            assert(none@ =~= Seq::<char>::empty());
            cpu_limit_of(none.as_str())
        },
    };
    RawUsage {
        usage_usec,
        cpu_limit,
        memory_used: number_of(memory_current),
        memory_limit: memory_limit_of(memory_max, u64::MAX),
    }
}

/// The period in a file of the first version.
pub open spec fn period_in(content: Option<Seq<char>>) -> Option<nat> {
    match content {
        Some(s) => match number_upto(trimmed(s), u64::MAX as nat) {
            Some(n) => Some(n),
            None => Some(100000),
        },
        None => Some(100000),
    }
}

/// The quota in a file of the first version; a negative one is none.
pub open spec fn old_quota_in(content: Option<Seq<char>>) -> Option<nat> {
    match content {
        Some(s) => match signed_number(trimmed(s)) {
            Some(n) => if n > 0 {
                Some(n as nat)
            } else {
                None
            },
            None => None,
        },
        None => None,
    }
}

/// What a container uses, from its files in the first version. A limit on memory above `2^60` is
/// none.
pub open spec fn usage_v1(
    usage: Option<String>,
    cfs_quota: Option<String>,
    cfs_period: Option<String>,
    memory_usage: Option<String>,
    memory_limit: Option<String>,
) -> RawUsage {
    RawUsage {
        usage_usec: number_in(opt_view(usage)) / 1000,
        cpu_limit: quota(
            old_quota_in(opt_view(cfs_quota)),
            period_in(opt_view(cfs_period)),
        ),
        memory_used: number_in(opt_view(memory_usage)),
        memory_limit: memory_limit_in(opt_view(memory_limit), 0x1000_0000_0000_0000),
    }
}

/// What a container uses, from its files in the first version. A limit on memory above `2^60` is
/// none.
pub fn read_cgroup_v1_stats(
    usage: &Option<String>,
    cfs_quota: &Option<String>,
    cfs_period: &Option<String>,
    memory_usage: &Option<String>,
    memory_limit: &Option<String>,
) -> (r: RawUsage)
    ensures
        r == usage_v1(*usage, *cfs_quota, *cfs_period, *memory_usage, *memory_limit),
{
    let q: u64 = match cfs_quota {
        Some(s) => match parse_i64(trim(s.as_str()).as_str()) {
            Some(n) => if n > 0 {
                n as u64
            } else {
                0
            },
            None => 0,
        },
        None => 0,
    };
    let p: u64 = match cfs_period {
        Some(s) => match parse_u64(trim(s.as_str()).as_str()) {
            Some(n) => n,
            None => 100000,
        },
        None => 100000,
    };
    RawUsage {
        usage_usec: number_of(usage) / 1000,
        cpu_limit: if q > 0 && p > 0 {
            Some((q, p))
        } else {
            None
        },
        memory_used: number_of(memory_usage),
        memory_limit: memory_limit_of(memory_limit, 0x1000_0000_0000_0000),
    }
}

// ---------------------------------------------------------------------------
// Where a container's control group is
// ---------------------------------------------------------------------------

/// How to look for a container below a directory.
#[derive(Debug, Clone, Copy, PartialEq, Eq, Structural)]
pub enum SearchKind {
    /// The directory itself, where it is there.
    Here,
    /// Below it, in the directories of pods and of classes of pods.
    Pods,
    /// Below it, in all directories, down to a depth.
    All,
}

/// Searches, as values.
pub open spec fn search_views(v: Seq<(SearchKind, String)>) -> Seq<(SearchKind, Seq<char>)> {
    Seq::new(v.len(), |i: int| (v[i].0, v[i].1@))
}

/// The directory of a user's services.
pub open spec fn user_service(uid: u32) -> Seq<char> {
    "/sys/fs/cgroup/user.slice/user-"@ + decimal(uid as nat) + ".slice/user@"@ + decimal(uid as nat)
        + ".service"@
}

/// The directory of a user's slice below a controller.
pub open spec fn user_slice(controller: Seq<char>, uid: u32) -> Seq<char> {
    "/sys/fs/cgroup/"@ + controller + "/user.slice/user-"@ + decimal(uid as nat) + ".slice"@
}

/// The searches for a container, in order: those of Docker as root, then those of Docker as the
/// user.
pub open spec fn searches(version: CgroupVersion, uid: Option<u32>, id: Seq<char>) -> Seq<
    (SearchKind, Seq<char>),
> {
    let none = Seq::<(SearchKind, Seq<char>)>::empty();
    match version {
        CgroupVersion::V2 => {
            let a = none.push((SearchKind::Pods, "/sys/fs/cgroup/kubepods"@));
            match uid {
                Some(u) => {
                    let service = user_service(u) + "/docker.service"@;
                    let plain = user_service(u) + "/docker"@;
                    a.push((SearchKind::Here, service + "/"@ + id)).push(
                        (SearchKind::All, service),
                    ).push((SearchKind::Here, plain + "/"@ + id)).push((SearchKind::All, plain))
                },
                None => a,
            }
        },
        CgroupVersion::V1 => {
            let a = none.push((SearchKind::Pods, "/sys/fs/cgroup/cpu,cpuacct/kubepods"@)).push(
                (SearchKind::Pods, "/sys/fs/cgroup/cpu/kubepods"@),
            );
            match uid {
                Some(u) => a.push((SearchKind::All, user_slice("cpu,cpuacct"@, u))).push(
                    (SearchKind::All, user_slice("cpu"@, u)),
                ),
                None => a,
            }
        },
    }
}

fn add_search(v: &mut Vec<(SearchKind, String)>, k: SearchKind, path: String)
    ensures
        search_views(final(v)@) == search_views(old(v)@).push((k, path@)),
{
    let ghost before = search_views(v@);
    let ghost row = (k, path@);
    v.push((k, path));
    assert(search_views(v@) =~= before.push(row));
}

fn with_tail(a: &str, b: &str, c: &str) -> (r: String)
    ensures
        r@ == a@ + b@ + c@,
{
    let mut s = a.to_owned();
    s.append(b);
    s.append(c);
    s
}

fn slice_of(controller: &str, uid: u32) -> (r: String)
    ensures
        r@ == user_slice(controller@, uid),
{
    let mut s = "/sys/fs/cgroup/".to_owned();
    s.append(controller);
    s.append("/user.slice/user-");
    s.append(u64_text(uid as u64).as_str());
    s.append(".slice");
    s
}

/// The searches of Docker as the user in the second version.
fn find_rootless_cgroup_v2(v: &mut Vec<(SearchKind, String)>, uid: u32, id: &str)
    ensures
        search_views(final(v)@) == ({
            let service = user_service(uid) + "/docker.service"@;
            let plain = user_service(uid) + "/docker"@;
            search_views(old(v)@).push((SearchKind::Here, service + "/"@ + id@)).push(
                (SearchKind::All, service),
            ).push((SearchKind::Here, plain + "/"@ + id@)).push((SearchKind::All, plain))
        }),
{
    let mut base = "/sys/fs/cgroup/user.slice/user-".to_owned();
    base.append(u64_text(uid as u64).as_str());
    base.append(".slice/user@");
    base.append(u64_text(uid as u64).as_str());
    base.append(".service");
    let mut service = base.clone();
    service.append("/docker.service");
    let mut plain = base.clone();
    plain.append("/docker");
    add_search(v, SearchKind::Here, with_tail(service.as_str(), "/", id));
    add_search(v, SearchKind::All, service);
    add_search(v, SearchKind::Here, with_tail(plain.as_str(), "/", id));
    add_search(v, SearchKind::All, plain);
}

/// The searches for a container, in order.
pub fn find_container_cgroup(version: CgroupVersion, uid: Option<u32>, id: &str) -> (r: Vec<
    (SearchKind, String),
>)
    ensures
        search_views(r@) == searches(version, uid, id@),
{
    let mut v: Vec<(SearchKind, String)> = Vec::new();
    assert(search_views(v@) =~= Seq::<(SearchKind, Seq<char>)>::empty());
    match version {
        CgroupVersion::V2 => {
            add_search(&mut v, SearchKind::Pods, "/sys/fs/cgroup/kubepods".to_owned());
            if let Some(u) = uid {
                find_rootless_cgroup_v2(&mut v, u, id);
            }
        },
        CgroupVersion::V1 => {
            add_search(&mut v, SearchKind::Pods, "/sys/fs/cgroup/cpu,cpuacct/kubepods".to_owned());
            add_search(&mut v, SearchKind::Pods, "/sys/fs/cgroup/cpu/kubepods".to_owned());
            if let Some(u) = uid {
                add_search(&mut v, SearchKind::All, slice_of("cpu,cpuacct", u));
                add_search(&mut v, SearchKind::All, slice_of("cpu", u));
            }
        },
    }
    v
}

/// How many levels below its start the search in all directories goes.
pub const MAX_DEPTH: u32 = 3;

/// What to do about a directory in a search.
#[derive(Debug, Clone, Copy, PartialEq, Eq, Structural)]
pub enum DirVerdict {
    /// It is the container's.
    Found,
    /// Search below it.
    Descend,
    Skip,
}

/// Whether a search for pods goes below a directory.
pub open spec fn leads_to_pods(name: Seq<char>) -> bool {
    begins(name, "pod"@) || name == "burstable"@ || name == "besteffort"@ || name == "guaranteed"@
        || begins(name, "kubepods"@)
}

/// What to do about a directory in a search for pods.
pub fn search_cgroup_dir(name: &str, id: &str) -> (r: DirVerdict)
    ensures
        r == if name@ == id@ {
            DirVerdict::Found
        } else if leads_to_pods(name@) {
            DirVerdict::Descend
        } else {
            DirVerdict::Skip
        },
{
    if same(name, id) {
        DirVerdict::Found
    } else if starts_with(name, "pod") || same(name, "burstable") || same(name, "besteffort")
        || same(name, "guaranteed") || starts_with(name, "kubepods") {
        DirVerdict::Descend
    } else {
        DirVerdict::Skip
    }
}

/// What to do about a directory in a search of all directories, given how many levels below the
/// start the directory that holds it lies.
pub open spec fn broad_verdict(name: Seq<char>, id: Seq<char>, depth: int) -> DirVerdict {
    if depth >= MAX_DEPTH {
        DirVerdict::Skip
    } else if name == id {
        DirVerdict::Found
    } else if depth + 1 < MAX_DEPTH {
        DirVerdict::Descend
    } else {
        DirVerdict::Skip
    }
}

/// What to do about a directory in a search of all directories, given how many levels below the
/// start the directory that holds it lies. Nothing below the last level is looked at.
pub fn search_cgroup_dir_broad(name: &str, id: &str, depth: u32) -> (r: DirVerdict)
    ensures
        r == broad_verdict(name@, id@, depth as int),
{
    if depth >= MAX_DEPTH {
        DirVerdict::Skip
    } else if same(name, id) {
        DirVerdict::Found
    } else if depth < MAX_DEPTH - 1 {
        DirVerdict::Descend
    } else {
        DirVerdict::Skip
    }
}

/// Whether a search of all directories comes upon a path, given by its components below a
/// directory that lies so many levels below the start, as the container's.
pub open spec fn comes_upon(path: Seq<Seq<char>>, id: Seq<char>, depth: int) -> bool
    decreases path.len(),
{
    path.len() > 0 && match broad_verdict(path[0], id, depth) {
        DirVerdict::Found => path.len() == 1,
        DirVerdict::Descend => comes_upon(path.skip(1), id, depth + 1),
        DirVerdict::Skip => false,
    }
}

/// A search of all directories finds a container's directory down to three levels below its start,
/// and nothing deeper.
pub proof fn law_broad_search_is_limited(path: Seq<Seq<char>>, id: Seq<char>)
    ensures
        comes_upon(path, id, 0) <==> 1 <= path.len() <= MAX_DEPTH && path.last() == id && (forall|
            i: int,
        |
            0 <= i < path.len() - 1 ==> path[i] != id),
{
    reveal_with_fuel(comes_upon, 4);
    if path.len() >= 1 {
        let p = path.skip(1);
        assert(p.len() == path.len() - 1);
        if path.len() >= 2 {
            assert(p[0] == path[1]);
            let q = p.skip(1);
            assert(q.len() == path.len() - 2);
            if path.len() >= 3 {
                assert(q[0] == path[2]);
            }
        }
    }
}

/// The user as whom this program runs: the owner of its process, or of the current directory.
pub fn current_uid(process: Option<u32>, directory: Option<u32>) -> (r: Option<u32>)
    ensures
        r == match process {
            Some(u) => Some(u),
            None => directory,
        },
{
    match process {
        Some(u) => Some(u),
        None => directory,
    }
}

// ---------------------------------------------------------------------------
// Containers
// ---------------------------------------------------------------------------

/// The containers to measure: each once, without pause containers.
pub open spec fn measurable(names: Seq<Seq<char>>) -> Seq<Seq<char>>
    decreases names.len(),
{
    if names.len() == 0 {
        Seq::empty()
    } else if begins(names.last(), "k8s_POD_"@) {
        measurable(names.drop_last())
    } else {
        with_text(measurable(names.drop_last()), names.last())
    }
}

/// The containers to measure, given those of the cluster and those of pods.
pub fn containers_to_measure(cluster: &Vec<String>, pods: &Vec<String>) -> (r: Vec<String>)
    ensures
        views(r@) == measurable(views(cluster@) + views(pods@)),
{
    let mut out = no_texts();
    let ghost all = views(cluster@) + views(pods@);
    let n: usize = cluster.len();
    let mut i: usize = 0;
    assert(all.take(0) =~= Seq::<Seq<char>>::empty());
    while i < cluster.len()
        invariant
            i <= cluster@.len(),
            all == views(cluster@) + views(pods@),
            views(out@) == measurable(all.take(i as int)),
        decreases cluster@.len() - i,
    {
        assert(all.take(i + 1).drop_last() =~= all.take(i as int));
        assert(all.take(i + 1).last() == cluster@[i as int]@);
        if !starts_with(cluster[i].as_str(), "k8s_POD_") {
            add_once(&mut out, cluster[i].as_str());
        }
        i = i + 1;
    }
    let mut j: usize = 0;
    while j < pods.len()
        invariant
            j <= pods@.len(),
            n == cluster@.len(),
            all == views(cluster@) + views(pods@),
            views(out@) == measurable(all.take(n + j)),
        decreases pods@.len() - j,
    {
        assert(all.take(n + j + 1).drop_last() =~= all.take(n + j));
        assert(all.take(n + j + 1).last() == pods@[j as int]@);
        if !starts_with(pods[j].as_str(), "k8s_POD_") {
            add_once(&mut out, pods[j].as_str());
        }
        j = j + 1;
    }
    assert(all.take(n + j) =~= all);
    out
}

/// Pod and namespace of a container. One that belongs to no pod stands for itself.
pub open spec fn owner_of(container: Seq<char>) -> (Seq<char>, Seq<char>) {
    let p = pieces(container, '_');
    if begins(container, "k8s_"@) {
        if p.len() >= 4 {
            (p[2], p[3])
        } else if p.len() >= 3 {
            (p[2], "default"@)
        } else {
            (container, "default"@)
        }
    } else {
        (container, "system"@)
    }
}

/// Pod and namespace of a container.
pub fn pod_and_namespace(container: &str) -> (r: (String, String))
    ensures
        (r.0@, r.1@) == owner_of(container@),
{
    if starts_with(container, "k8s_") {
        let p = split(container, '_');
        assert(views(p@).len() == p@.len());
        if p.len() >= 4 {
            assert(views(p@)[2] == p@[2]@);
            assert(views(p@)[3] == p@[3]@);
            (p[2].clone(), p[3].clone())
        } else if p.len() >= 3 {
            assert(views(p@)[2] == p@[2]@);
            (p[2].clone(), "default".to_owned())
        } else {
            (container.to_owned(), "default".to_owned())
        }
    } else {
        (container.to_owned(), "system".to_owned())
    }
}

// ---------------------------------------------------------------------------
// Pods
// ---------------------------------------------------------------------------

/// What a container uses.
#[derive(Debug, Clone)]
pub struct ContainerUsage {
    pub name: String,
    pub namespace: String,
    pub cpu: CpuShare,
    pub cpu_limit: Option<(u64, u64)>,
    pub memory_used: u64,
    pub memory_limit: Option<u64>,
}

/// What the containers of a pod use. Limits are there only where every container has one.
#[derive(Debug)]
pub struct PodUsage {
    pub name: String,
    pub namespace: String,
    pub cpu: Vec<CpuShare>,
    pub cpu_limits: Option<Vec<(u64, u64)>>,
    pub memory_used: Vec<u64>,
    pub memory_limits: Option<Vec<u64>>,
}

/// What the containers of a pod use, as a value.
pub struct PodUsageView {
    pub name: Seq<char>,
    pub namespace: Seq<char>,
    pub cpu: Seq<CpuShare>,
    pub cpu_limits: Option<Seq<(u64, u64)>>,
    pub memory_used: Seq<u64>,
    pub memory_limits: Option<Seq<u64>>,
}

/// The value of an optional list.
pub open spec fn opt_seq<T>(o: Option<Vec<T>>) -> Option<Seq<T>> {
    match o {
        Some(v) => Some(v@),
        None => None,
    }
}

impl View for PodUsage {
    type V = PodUsageView;

    open spec fn view(&self) -> PodUsageView {
        PodUsageView {
            name: self.name@,
            namespace: self.namespace@,
            cpu: self.cpu@,
            cpu_limits: opt_seq(self.cpu_limits),
            memory_used: self.memory_used@,
            memory_limits: opt_seq(self.memory_limits),
        }
    }
}

/// Values of what pods use.
pub open spec fn pod_views(v: Seq<PodUsage>) -> Seq<PodUsageView> {
    Seq::new(v.len(), |i: int| v[i]@)
}

impl HasRank for PodUsageView {
    open spec fn rank(&self) -> Seq<Seq<char>> {
        seq![self.name]
    }
}

impl HasRank for PodUsage {
    open spec fn rank(&self) -> Seq<Seq<char>> {
        seq![self.name@]
    }
}

impl Ranked for PodUsage {
    fn ranks_before(&self, other: &Self) -> (r: bool) {
        self.name.ranks_before(&other.name)
    }
}

/// The key of a pod.
pub open spec fn pod_key(namespace: Seq<char>, name: Seq<char>) -> Seq<char> {
    namespace + "/"@ + name
}

/// A list with another item, where there is a list.
pub open spec fn and_also<T>(a: Option<Seq<T>>, b: Option<T>) -> Option<Seq<T>> {
    match (a, b) {
        (Some(s), Some(x)) => Some(s.push(x)),
        _ => None,
    }
}

/// A pod with one container.
pub open spec fn one_container(c: ContainerUsage) -> PodUsageView {
    PodUsageView {
        name: c.name@,
        namespace: c.namespace@,
        cpu: Seq::empty().push(c.cpu),
        cpu_limits: and_also(Some(Seq::empty()), c.cpu_limit),
        memory_used: Seq::empty().push(c.memory_used),
        memory_limits: and_also(Some(Seq::empty()), c.memory_limit),
    }
}

/// A pod with another container.
pub open spec fn another_container(p: PodUsageView, c: ContainerUsage) -> PodUsageView {
    PodUsageView {
        name: p.name,
        namespace: p.namespace,
        cpu: p.cpu.push(c.cpu),
        cpu_limits: and_also(p.cpu_limits, c.cpu_limit),
        memory_used: p.memory_used.push(c.memory_used),
        memory_limits: and_also(p.memory_limits, c.memory_limit),
    }
}

/// The index of the pod with a key, or how many there are.
pub open spec fn pod_index(pods: Seq<PodUsageView>, key: Seq<char>) -> int
    decreases pods.len(),
{
    if pods.len() == 0 {
        0
    } else if pod_key(pods[0].namespace, pods[0].name) == key {
        0
    } else {
        1 + pod_index(pods.skip(1), key)
    }
}

/// The pods with another container.
pub open spec fn with_usage(pods: Seq<PodUsageView>, c: ContainerUsage) -> Seq<PodUsageView> {
    let i = pod_index(pods, pod_key(c.namespace@, c.name@));
    if i < pods.len() {
        pods.update(i, another_container(pods[i], c))
    } else {
        pods.push(one_container(c))
    }
}

/// The pods of containers, in the order in which they first occur.
pub open spec fn grouped(cs: Seq<ContainerUsage>) -> Seq<PodUsageView>
    decreases cs.len(),
{
    if cs.len() == 0 {
        Seq::empty()
    } else {
        with_usage(grouped(cs.drop_last()), cs.last())
    }
}

/// The pods of containers, by name.
pub open spec fn pods_by_name(cs: Seq<ContainerUsage>) -> Seq<PodUsageView> {
    ranked(grouped(cs))
}

proof fn lemma_pod_index(pods: Seq<PodUsageView>, key: Seq<char>)
    ensures
        0 <= pod_index(pods, key) <= pods.len(),
        forall|j: int|
            0 <= j < pod_index(pods, key) ==> pod_key(
                (#[trigger] pods[j]).namespace,
                pods[j].name,
            ) != key,
        pod_index(pods, key) < pods.len() ==> pod_key(
            pods[pod_index(pods, key)].namespace,
            pods[pod_index(pods, key)].name,
        ) == key,
    decreases pods.len(),
{
    if pods.len() > 0 && pod_key(pods[0].namespace, pods[0].name) != key {
        let t = pods.skip(1);
        lemma_pod_index(t, key);
        let i = pod_index(t, key);
        assert forall|j: int| 0 <= j < 1 + i implies pod_key(
            (#[trigger] pods[j]).namespace,
            pods[j].name,
        ) != key by {
            if j > 0 {
                assert(t[j - 1] == pods[j]);
            }
        }
        if i < t.len() {
            assert(t[i] == pods[i + 1]);
        }
    }
}

fn key_of(namespace: &str, name: &str) -> (r: String)
    ensures
        r@ == pod_key(namespace@, name@),
{
    with_tail(namespace, "/", name)
}

fn find_pod(pods: &Vec<PodUsage>, key: &str) -> (r: usize)
    ensures
        r == pod_index(pod_views(pods@), key@),
        r <= pods@.len(),
{
    let ghost all = pod_views(pods@);
    proof {
        lemma_pod_index(all, key@);
    }
    let mut i: usize = 0;
    while i < pods.len()
        invariant
            i <= pods@.len(),
            all == pod_views(pods@),
            forall|j: int|
                0 <= j < i ==> pod_key((#[trigger] all[j]).namespace, all[j].name) != key@,
            0 <= pod_index(all, key@) <= all.len(),
            forall|j: int|
                0 <= j < pod_index(all, key@) ==> pod_key(
                    (#[trigger] all[j]).namespace,
                    all[j].name,
                ) != key@,
            pod_index(all, key@) < all.len() ==> pod_key(
                all[pod_index(all, key@)].namespace,
                all[pod_index(all, key@)].name,
            ) == key@,
        decreases pods@.len() - i,
    {
        assert(all[i as int] == pods@[i as int]@);
        let k = key_of(pods[i].namespace.as_str(), pods[i].name.as_str());
        if same(k.as_str(), key) {
            return i;
        }
        i = i + 1;
    }
    i
}

fn new_pod(c: &ContainerUsage) -> (r: PodUsage)
    ensures
        r@ == one_container(*c),
{
    let mut cpu: Vec<CpuShare> = Vec::new();
    cpu.push(c.cpu);
    let mut memory_used: Vec<u64> = Vec::new();
    memory_used.push(c.memory_used);
    let cpu_limits = match c.cpu_limit {
        Some(l) => {
            let mut v: Vec<(u64, u64)> = Vec::new();
            v.push(l);
            Some(v)
        },
        None => None,
    };
    let memory_limits = match c.memory_limit {
        Some(l) => {
            let mut v: Vec<u64> = Vec::new();
            v.push(l);
            Some(v)
        },
        None => None,
    };
    PodUsage {
        name: c.name.clone(),
        namespace: c.namespace.clone(),
        cpu,
        cpu_limits,
        memory_used,
        memory_limits,
    }
}

fn add_to_pod(p: PodUsage, c: &ContainerUsage) -> (r: PodUsage)
    ensures
        r@ == another_container(p@, *c),
{
    let PodUsage { name, namespace, cpu, cpu_limits, memory_used, memory_limits } = p;
    let mut cpu = cpu;
    cpu.push(c.cpu);
    let mut memory_used = memory_used;
    memory_used.push(c.memory_used);
    let cpu_limits = match (cpu_limits, c.cpu_limit) {
        (Some(v), Some(l)) => {
            let mut v = v;
            v.push(l);
            Some(v)
        },
        _ => None,
    };
    let memory_limits = match (memory_limits, c.memory_limit) {
        (Some(v), Some(l)) => {
            let mut v = v;
            v.push(l);
            Some(v)
        },
        _ => None,
    };
    PodUsage { name, namespace, cpu, cpu_limits, memory_used, memory_limits }
}

fn add_usage(pods: &mut Vec<PodUsage>, c: &ContainerUsage)
    ensures
        pod_views(final(pods)@) == with_usage(pod_views(old(pods)@), *c),
{
    let ghost before = pod_views(pods@);
    let key = key_of(c.namespace.as_str(), c.name.as_str());
    let i: usize = find_pod(pods, key.as_str());
    if i < pods.len() {
        let ghost seq = pods@;
        let p = pods.remove(i);
        assert(p@ == before[i as int]);
        let q = add_to_pod(p, c);
        let ghost row = q@;
        pods.insert(i, q);
        assert(pod_views(pods@) =~= before.update(i as int, row));
    } else {
        let p = new_pod(c);
        let ghost row = p@;
        pods.push(p);
        assert(pod_views(pods@) =~= before.push(row));
    }
}

/// What pods use, by name, given what their containers use.
pub fn get_pod_stats(cs: &Vec<ContainerUsage>) -> (r: Vec<PodUsage>)
    ensures
        pod_views(r@) == pods_by_name(cs@),
{
    let mut pods: Vec<PodUsage> = Vec::new();
    let mut i: usize = 0;
    assert(cs@.take(0) =~= Seq::<ContainerUsage>::empty());
    assert(pod_views(pods@) =~= Seq::<PodUsageView>::empty());
    while i < cs.len()
        invariant
            i <= cs@.len(),
            pod_views(pods@) == grouped(cs@.take(i as int)),
        decreases cs@.len() - i,
    {
        assert(cs@.take(i + 1).drop_last() =~= cs@.take(i as int));
        assert(cs@.take(i + 1).last() == cs@[i as int]);
        add_usage(&mut pods, &cs[i]);
        i = i + 1;
    }
    assert(cs@.take(i as int) =~= cs@);
    let ghost rows = pods@;
    let r = sort_ranked(pods);
    proof {
        let f = |x: PodUsage| x@;
        assert(pod_views(rows) =~= rows.map_values(f));
        assert(pod_views(r@) =~= r@.map_values(f));
        lemma_ranked_map(rows, f);
    }
    r
}

// ---------------------------------------------------------------------------
// The agent's report
// ---------------------------------------------------------------------------

/// A container in the agent's report.
#[derive(Debug, Clone)]
pub struct AgentContainer {
    pub id: String,
    pub pod: String,
    pub ns: String,
    pub cpu_usec: u64,
    pub cpu_quota: i64,
    pub cpu_period: u64,
    pub mem_current: u64,
    pub mem_max: i64,
}

/// The agent's report.
#[derive(Debug)]
pub struct AgentOutput {
    pub ts: u64,
    pub containers: Vec<AgentContainer>,
}

/// Whether a text is a complaint of the agent.
pub open spec fn is_complaint(json: Seq<char>) -> bool {
    json.len() == 0 || begins(json, "{\"error\""@)
}

/// The first so many characters.
pub open spec fn first_chars(s: Seq<char>, n: int) -> Seq<char> {
    if s.len() <= n {
        s
    } else {
        s.take(n)
    }
}

/// The text of the agent's report, or the reason why there is none.
pub fn parse_agent_output(json: &str) -> (r: Result<String, String>)
    ensures
        match r {
            Ok(t) => !is_complaint(trimmed(json@)) && t@ == trimmed(json@),
            Err(e) => is_complaint(trimmed(json@)) && e@ == "Agent returned error: "@
                + first_chars(trimmed(json@), 200),
        },
{
    let t = trim(json);
    if t.as_str().is_empty() || starts_with(t.as_str(), "{\"error\"") {
        let v = chars_of(t.as_str());
        let n: usize = if v.len() <= 200 {
            v.len()
        } else {
            200
        };
        let mut s = "Agent returned error: ".to_owned();
        let head = string_of_range(&v, 0, n);
        assert(head@ =~= first_chars(t@, 200));
        s.append(head.as_str());
        Err(s)
    } else {
        Ok(t)
    }
}

/// Whether a container of the report belongs to a pod.
pub open spec fn is_known(c: AgentContainer) -> bool {
    c.pod@ != "_unknown"@
}

/// What a container of the report uses, given its share.
pub open spec fn usage_reported(u: ContainerUsage, c: AgentContainer, share: CpuShare) -> bool {
    &&& u.name@ == c.pod@
    &&& u.namespace@ == c.ns@
    &&& u.cpu == share
    &&& u.cpu_limit == if c.cpu_quota > 0 && c.cpu_period > 0 {
        Some((c.cpu_quota as u64, c.cpu_period))
    } else {
        None
    }
    &&& u.memory_used == c.mem_current
    &&& u.memory_limit == if c.mem_max > 0 {
        Some(c.mem_max as u64)
    } else {
        None
    }
}

/// The measurements that are remembered of containers.
pub type CpuCache = Seq<(Seq<char>, CachedCpuStats)>;

/// What is remembered after the containers of a report.
pub open spec fn cache_after(cache: CpuCache, cs: Seq<AgentContainer>, ts: u64) -> CpuCache
    decreases cs.len(),
{
    if cs.len() == 0 {
        cache
    } else {
        let before = cache_after(cache, cs.drop_last(), ts);
        let c = cs.last();
        if is_known(c) {
            let prev = lookup(before, c.id@);
            put(
                before,
                c.id@,
                remembered(prev, c.cpu_usec, ts, measured_share(prev, c.cpu_usec, ts, false)),
            )
        } else {
            before
        }
    }
}

/// The share of the `i`th container of a report.
pub open spec fn share_at(
    cache: CpuCache,
    cs: Seq<AgentContainer>,
    ts: u64,
    cpus: u64,
    i: int,
) -> CpuShare {
    measured_share(
        lookup(cache_after(cache, cs.take(i), ts), cs[i].id@),
        cs[i].cpu_usec,
        ts,
        false,
    ).capped(cpus as nat)
}

/// How many containers of a report belong to pods.
pub open spec fn known_count(cs: Seq<AgentContainer>) -> nat
    decreases cs.len(),
{
    if cs.len() == 0 {
        0
    } else {
        known_count(cs.drop_last()) + if is_known(cs.last()) {
            1nat
        } else {
            0nat
        }
    }
}

/// Whether `us` is what the containers of a report use, in order; those of no pod are left out.
pub open spec fn reported(
    us: Seq<ContainerUsage>,
    cache: CpuCache,
    cs: Seq<AgentContainer>,
    ts: u64,
    cpus: u64,
) -> bool {
    &&& us.len() == known_count(cs)
    &&& forall|i: int|
        0 <= i < cs.len() && is_known(#[trigger] cs[i]) ==> usage_reported(
            us[known_count(cs.take(i)) as int],
            cs[i],
            share_at(cache, cs, ts, cpus, i),
        )
}

proof fn lemma_known_count(cs: Seq<AgentContainer>, i: int)
    requires
        0 <= i < cs.len(),
    ensures
        known_count(cs.take(i)) <= known_count(cs.take(i + 1)) <= known_count(cs.take(i)) + 1,
        is_known(cs[i]) ==> known_count(cs.take(i + 1)) == known_count(cs.take(i)) + 1,
{
    assert(cs.take(i + 1).drop_last() =~= cs.take(i));
}

fn usage_in_report(c: &AgentContainer, share: CpuShare) -> (r: ContainerUsage)
    ensures
        usage_reported(r, *c, share),
{
    ContainerUsage {
        name: c.pod.clone(),
        namespace: c.ns.clone(),
        cpu: share,
        cpu_limit: if c.cpu_quota > 0 && c.cpu_period > 0 {
            Some((c.cpu_quota as u64, c.cpu_period))
        } else {
            None
        },
        memory_used: c.mem_current,
        memory_limit: if c.mem_max > 0 {
            Some(c.mem_max as u64)
        } else {
            None
        },
    }
}

/// What the containers of a report use, and what is remembered of them.
pub fn measure_report(agent: &AgentOutput, cache: &mut TextMap<CachedCpuStats>, cpus: u64) -> (r:
    Vec<ContainerUsage>)
    ensures
        final(cache)@ == cache_after(old(cache)@, agent.containers@, agent.ts),
        reported(r@, old(cache)@, agent.containers@, agent.ts, cpus),
{
    let ghost start = cache@;
    let ghost cs = agent.containers@;
    let ts: u64 = agent.ts;
    let mut out: Vec<ContainerUsage> = Vec::new();
    let mut i: usize = 0;
    assert(cs.take(0) =~= Seq::<AgentContainer>::empty());
    while i < agent.containers.len()
        invariant
            i <= agent.containers@.len(),
            cs == agent.containers@,
            ts == agent.ts,
            cache@ == cache_after(start, cs.take(i as int), ts),
            out@.len() == known_count(cs.take(i as int)),
            forall|j: int|
                0 <= j < i && is_known(#[trigger] cs[j]) ==> usage_reported(
                    out@[known_count(cs.take(j)) as int],
                    cs[j],
                    share_at(start, cs, ts, cpus, j),
                ) && known_count(cs.take(j)) < known_count(cs.take(i as int)),
        decreases agent.containers@.len() - i,
    {
        let c = &agent.containers[i];
        let ghost before = out@;
        proof {
            assert(cs.take(i + 1).drop_last() =~= cs.take(i as int));
            assert(cs.take(i + 1).last() == cs[i as int]);
            lemma_known_count(cs, i as int);
        }
        if !same(c.pod.as_str(), "_unknown") {
            let prev = match cache.get(c.id.as_str()) {
                Some(p) => Some(*p),
                None => None,
            };
            let (share, keep) = calculate_cpu_percent(&prev, c.cpu_usec, ts, cpus, false);
            cache.insert(c.id.clone(), keep);
            out.push(usage_in_report(c, share));
        }
        proof {
            assert forall|j: int| 0 <= j < i + 1 && is_known(#[trigger] cs[j]) implies usage_reported(
                out@[known_count(cs.take(j)) as int],
                cs[j],
                share_at(start, cs, ts, cpus, j),
            ) && known_count(cs.take(j)) < known_count(cs.take(i + 1)) by {
                if j < i {
                    assert(out@[known_count(cs.take(j)) as int] == before[known_count(
                        cs.take(j),
                    ) as int]);
                }
            }
        }
        i = i + 1;
    }
    assert(cs.take(i as int) =~= cs);
    out
}

/// What pods use according to a report, by name, and what is remembered of their containers.
pub fn get_pod_stats_via_agent(
    agent: &AgentOutput,
    cache: &mut TextMap<CachedCpuStats>,
    cpus: u64,
) -> (r: Vec<PodUsage>)
    ensures
        final(cache)@ == cache_after(old(cache)@, agent.containers@, agent.ts),
        exists|us: Seq<ContainerUsage>| #[trigger]
            reported(us, old(cache)@, agent.containers@, agent.ts, cpus) && pod_views(r@)
                == pods_by_name(us),
{
    let us = measure_report(agent, cache, cpus);
    get_pod_stats(&us)
}

/// Where the use of pods is read.
#[derive(Debug, Clone, Copy, PartialEq, Eq, Structural)]
pub enum StatsSource {
    /// The agent in the cluster's container reports it.
    Agent,
    /// The control groups of this machine show it.
    ControlGroups,
}

/// Where the use of pods is read: the agent is asked first, and the control groups of this machine
/// stand in for it where it fails. They say nothing of a Docker elsewhere.
pub fn stats_source(agent_failed: bool, remote: bool) -> (r: Result<StatsSource, String>)
    ensures
        r is Err <==> agent_failed && remote,
        r matches Ok(s) ==> (s is Agent <==> !agent_failed),
        !agent_failed ==> r == Ok::<StatsSource, String>(StatsSource::Agent),
        agent_failed && !remote ==> r == Ok::<StatsSource, String>(StatsSource::ControlGroups),
        agent_failed && remote ==> (r matches Err(e) && e@
            == "Host-side cgroup stats unavailable with remote Docker"@),
{
    if !agent_failed {
        Ok(StatsSource::Agent)
    } else if !remote {
        Ok(StatsSource::ControlGroups)
    } else {
        Err("Host-side cgroup stats unavailable with remote Docker".to_owned())
    }
}

// ---------------------------------------------------------------------------
// The cluster as a whole
// ---------------------------------------------------------------------------

/// The containers of the cluster as a whole, given its own and those of pods: each once.
pub fn all_containers(cluster: &Vec<String>, pods: &Vec<String>) -> (r: Vec<String>)
    ensures
        views(r@) == joined_once(Seq::empty(), views(cluster@) + views(pods@)),
{
    let mut out = no_texts();
    let ghost none = Seq::<Seq<char>>::empty();
    let ghost all = views(cluster@) + views(pods@);
    let n: usize = cluster.len();
    let mut i: usize = 0;
    assert(all.take(0) =~= none);
    while i < n
        invariant
            n == cluster@.len(),
            i <= n,
            none == Seq::<Seq<char>>::empty(),
            all == views(cluster@) + views(pods@),
            views(out@) == joined_once(none, all.take(i as int)),
        decreases n - i,
    {
        assert(all.take(i + 1).drop_last() =~= all.take(i as int));
        assert(all.take(i + 1).last() == cluster@[i as int]@);
        add_once(&mut out, cluster[i].as_str());
        i = i + 1;
    }
    let mut j: usize = 0;
    while j < pods.len()
        invariant
            j <= pods@.len(),
            n == cluster@.len(),
            none == Seq::<Seq<char>>::empty(),
            all == views(cluster@) + views(pods@),
            views(out@) == joined_once(none, all.take(n + j)),
        decreases pods@.len() - j,
    {
        assert(all.take(n + j + 1).drop_last() =~= all.take(n + j));
        assert(all.take(n + j + 1).last() == pods@[j as int]@);
        add_once(&mut out, pods[j].as_str());
        j = j + 1;
    }
    assert(all.take(n + j) =~= all);
    out
}

/// What all containers use together. The memory there is for them is the first limit that one of
/// them has.
#[derive(Debug)]
pub struct ClusterUsage {
    pub cpu: Vec<CpuShare>,
    pub memory_used: Vec<u64>,
    pub memory_total: Option<u64>,
}

/// The first limit of memory other than none among containers.
pub open spec fn first_limit(cs: Seq<ContainerUsage>) -> Option<u64>
    decreases cs.len(),
{
    if cs.len() == 0 {
        None
    } else {
        match first_limit(cs.drop_last()) {
            Some(l) => Some(l),
            None => match cs.last().memory_limit {
                Some(l) => if l > 0 {
                    Some(l)
                } else {
                    None
                },
                None => None,
            },
        }
    }
}

/// What all containers use together.
pub fn get_container_stats(cs: &Vec<ContainerUsage>) -> (r: ClusterUsage)
    ensures
        r.cpu@ == Seq::new(cs@.len(), |i: int| cs@[i].cpu),
        r.memory_used@ == Seq::new(cs@.len(), |i: int| cs@[i].memory_used),
        r.memory_total == first_limit(cs@),
{
    let mut cpu: Vec<CpuShare> = Vec::new();
    let mut memory_used: Vec<u64> = Vec::new();
    let mut memory_total: Option<u64> = None;
    let mut i: usize = 0;
    assert(cs@.take(0) =~= Seq::<ContainerUsage>::empty());
    while i < cs.len()
        invariant
            i <= cs@.len(),
            cpu@.len() == i,
            memory_used@.len() == i,
            forall|j: int| 0 <= j < i ==> cpu@[j] == cs@[j].cpu,
            forall|j: int| 0 <= j < i ==> memory_used@[j] == cs@[j].memory_used,
            memory_total == first_limit(cs@.take(i as int)),
        decreases cs@.len() - i,
    {
        assert(cs@.take(i + 1).drop_last() =~= cs@.take(i as int));
        let c = &cs[i];
        cpu.push(c.cpu);
        memory_used.push(c.memory_used);
        if memory_total.is_none() {
            if let Some(l) = c.memory_limit {
                if l > 0 {
                    memory_total = Some(l);
                }
            }
        }
        i = i + 1;
    }
    assert(cs@.take(i as int) =~= cs@);
    assert(cpu@ =~= Seq::new(cs@.len(), |i: int| cs@[i].cpu));
    assert(memory_used@ =~= Seq::new(cs@.len(), |i: int| cs@[i].memory_used));
    ClusterUsage { cpu, memory_used, memory_total }
}

// ---------------------------------------------------------------------------
// Laws
// ---------------------------------------------------------------------------

/// Whether everything that is remembered is a share of at most the most cores.
pub open spec fn cache_wf(p: CachedCpuStats) -> bool {
    p.share.wf() && !p.share.above(MAX_CORES as nat)
}

/// No share is above the most cores or above all processors, and what is remembered stays so.
pub proof fn law_shares_are_limited(
    prev: Option<CachedCpuStats>,
    usage: u64,
    now: u64,
    cpus: u64,
    cap_first: bool,
)
    requires
        prev matches Some(p) ==> cache_wf(p),
    ensures
        ({
            let s = measured_share(prev, usage, now, cap_first);
            &&& s.wf() && !s.above(MAX_CORES as nat)
            &&& s.capped(cpus as nat).wf() && !s.capped(cpus as nat).above(cpus as nat)
            &&& cache_wf(remembered(prev, usage, now, s))
        }),
{
    let s = measured_share(prev, usage, now, cap_first);
    let c = CpuShare { usage: MAX_CORES, time: 1 };
    assert(!c.above(MAX_CORES as nat));
    let d = CpuShare { usage: cpus, time: 1 };
    assert(!d.above(cpus as nat)) by (nonlinear_arith)
        requires
            d.usage == cpus,
            d.time == 1,
    ;
}

/// The first measurement of a container shows nothing.
pub proof fn law_first_measurement_is_idle(usage: u64, now: u64, cap_first: bool)
    ensures
        measured_share(None, usage, now, cap_first) == idle(),
{
}

/// Measurements that are too close together repeat the last share.
pub proof fn law_hasty_measurements_repeat(
    p: CachedCpuStats,
    usage: u64,
    now: u64,
    cap_first: bool,
)
    requires
        cache_wf(p),
        difference(now, p.timestamp_usec) < MIN_SAMPLE_USEC,
    ensures
        measured_share(Some(p), usage, now, cap_first) == p.share,
{
    assert(!p.share.above_by(p.share, SPIKE_CORES as nat)) by (nonlinear_arith)
        requires
            p.share.time > 0,
            p.share.usage >= 0,
            p.share.above_by(p.share, SPIKE_CORES as nat) == (p.share.usage * p.share.time
                > p.share.time * (p.share.usage + 3 * p.share.time)),
    ;
}

/// No two pods of the list have the same key.
pub proof fn law_pods_are_listed_once(cs: Seq<ContainerUsage>, i: int, j: int)
    requires
        0 <= i < j < grouped(cs).len(),
    ensures
        pod_key(grouped(cs)[i].namespace, grouped(cs)[i].name) != pod_key(
            grouped(cs)[j].namespace,
            grouped(cs)[j].name,
        ),
    decreases cs.len(),
{
    if cs.len() > 0 {
        let before = grouped(cs.drop_last());
        let c = cs.last();
        let key = pod_key(c.namespace@, c.name@);
        lemma_pod_index(before, key);
        let k = pod_index(before, key);
        if k < before.len() {
            law_pods_are_listed_once(cs.drop_last(), i, j);
        } else if j < before.len() {
            law_pods_are_listed_once(cs.drop_last(), i, j);
        }
    }
}

/// Between two measurements that are at least a tenth of a second apart, the share is what the usage
/// has grown by in the time that has gone by, as long as that is no more than five cores, or no more
/// than 64 where nothing was measured before. Usage that has not grown is a share of nothing.
pub proof fn law_share_is_what_was_used_since(
    p: CachedCpuStats,
    usage: u64,
    now: u64,
    cap_first: bool,
)
    requires
        now >= p.timestamp_usec + 100_000,
    ensures
        usage >= p.usage_usec && (usage - p.usage_usec <= 5 * (now - p.timestamp_usec) || (
        p.share.usage == 0 && usage - p.usage_usec <= 64 * (now - p.timestamp_usec)))
            ==> measured_share(Some(p), usage, now, cap_first) == (CpuShare {
            usage: (usage - p.usage_usec) as u64,
            time: (now - p.timestamp_usec) as u64,
        }),
        usage <= p.usage_usec ==> measured_share(Some(p), usage, now, cap_first).usage == 0,
{
}

/// Only what has grown since the last measurement matters: the same amount of usage and of time on
/// top of both measurements changes nothing.
pub proof fn law_share_ignores_the_past(
    p: CachedCpuStats,
    usage: u64,
    now: u64,
    cap_first: bool,
    used: u64,
    gone: u64,
)
    requires
        p.usage_usec + used <= u64::MAX,
        p.timestamp_usec + gone <= u64::MAX,
        usage + used <= u64::MAX,
        now + gone <= u64::MAX,
    ensures
        measured_share(
            Some(
                CachedCpuStats {
                    usage_usec: (p.usage_usec + used) as u64,
                    timestamp_usec: (p.timestamp_usec + gone) as u64,
                    share: p.share,
                },
            ),
            (usage + used) as u64,
            (now + gone) as u64,
            cap_first,
        ) == measured_share(Some(p), usage, now, cap_first),
{
}

/// A share of more than five cores that is more than three cores above a last one other than nothing
/// is taken for a mistake: the last one is repeated. No other share above the limit is: it is cut.
pub proof fn law_spikes_are_rejected(p: CachedCpuStats, usage: u64, now: u64)
    requires
        p.share.time > 0,
        now >= p.timestamp_usec + 100_000,
        usage >= p.usage_usec,
    ensures
        ({
            let used = usage - p.usage_usec;
            let gone = now - p.timestamp_usec;
            let spike = p.share.usage > 0 && used > 5 * gone && used * p.share.time > gone * (
            p.share.usage + 3 * p.share.time);
            &&& spike ==> measured_share(Some(p), usage, now, false) == p.share
            &&& !spike && used > 64 * gone ==> measured_share(Some(p), usage, now, false)
                == CpuShare { usage: 64, time: 1 }
            &&& !spike && used <= 64 * gone ==> measured_share(Some(p), usage, now, false)
                == CpuShare { usage: used as u64, time: gone as u64 }
        }),
{
}

/// A share stays as it is up to a number of cores, and is cut to that number beyond it.
pub proof fn law_shares_are_cut(s: CpuShare, cores: u64)
    ensures
        s.usage <= cores * s.time ==> s.capped(cores as nat) == s,
        s.usage > cores * s.time ==> s.capped(cores as nat) == (CpuShare { usage: cores, time: 1 }),
{
}

/// Two measurements in a row: the second shows what was used since the first, whatever the first one
/// showed, and a share of nothing does not make the last one forgotten.
pub proof fn law_measurements_follow_one_another(
    prev: Option<CachedCpuStats>,
    usage: u64,
    now: u64,
    usage2: u64,
    now2: u64,
    cap_first: bool,
)
    requires
        now2 >= now + 100_000,
        usage <= usage2,
        usage2 - usage <= 5 * (now2 - now),
    ensures
        ({
            let s = measured_share(prev, usage, now, cap_first);
            let kept = remembered(prev, usage, now, s);
            &&& measured_share(Some(kept), usage2, now2, cap_first) == (CpuShare {
                usage: (usage2 - usage) as u64,
                time: (now2 - now) as u64,
            })
            &&& s.usage > 0 ==> kept.share == s
            &&& s.usage == 0 ==> (prev matches Some(p) ==> kept.share == p.share)
        }),
{
    let s = measured_share(prev, usage, now, cap_first);
    law_share_is_what_was_used_since(remembered(prev, usage, now, s), usage2, now2, cap_first);
}

/// The containers that belong to the pod with a key.
pub open spec fn containers_of(cs: Seq<ContainerUsage>, key: Seq<char>) -> Seq<ContainerUsage> {
    cs.filter(|c: ContainerUsage| pod_key(c.namespace@, c.name@) == key)
}

proof fn lemma_containers_of(cs: Seq<ContainerUsage>, key: Seq<char>)
    requires
        cs.len() > 0,
    ensures
        containers_of(cs, key) == if pod_key(cs.last().namespace@, cs.last().name@) == key {
            containers_of(cs.drop_last(), key).push(cs.last())
        } else {
            containers_of(cs.drop_last(), key)
        },
{
    reveal(Seq::filter);
}

/// What a pod uses is what its containers use, each once and no other's; it has a limit exactly where
/// all of its containers have one, and then those.
pub open spec fn adds_up(p: PodUsageView, cs: Seq<ContainerUsage>) -> bool {
    &&& cs.len() > 0
    &&& p.cpu == cs.map_values(|c: ContainerUsage| c.cpu)
    &&& p.memory_used == cs.map_values(|c: ContainerUsage| c.memory_used)
    &&& match p.cpu_limits {
        Some(l) => l.len() == cs.len() && forall|i: int|
            0 <= i < cs.len() ==> (#[trigger] cs[i]).cpu_limit == Some(l[i]),
        None => exists|i: int| 0 <= i < cs.len() && (#[trigger] cs[i]).cpu_limit is None,
    }
    &&& match p.memory_limits {
        Some(l) => l.len() == cs.len() && forall|i: int|
            0 <= i < cs.len() ==> (#[trigger] cs[i]).memory_limit == Some(l[i]),
        None => exists|i: int| 0 <= i < cs.len() && (#[trigger] cs[i]).memory_limit is None,
    }
}

proof fn lemma_one_adds_up(c: ContainerUsage)
    ensures
        adds_up(one_container(c), seq![c]),
{
    let cs = seq![c];
    assert(cs[0] == c);
    assert(one_container(c).cpu =~= cs.map_values(|c: ContainerUsage| c.cpu));
    assert(one_container(c).memory_used =~= cs.map_values(|c: ContainerUsage| c.memory_used));
}

proof fn lemma_another_adds_up(p: PodUsageView, cs: Seq<ContainerUsage>, c: ContainerUsage)
    requires
        adds_up(p, cs),
    ensures
        adds_up(another_container(p, c), cs.push(c)),
{
    let q = another_container(p, c);
    let ds = cs.push(c);
    assert(q.cpu =~= ds.map_values(|c: ContainerUsage| c.cpu));
    assert(q.memory_used =~= ds.map_values(|c: ContainerUsage| c.memory_used));
    assert(ds[cs.len() as int] == c);
    assert forall|i: int| 0 <= i < cs.len() implies #[trigger] cs[i] == ds[i] by {}
    if q.cpu_limits is None && p.cpu_limits is None {
        let i = choose|i: int| 0 <= i < cs.len() && (#[trigger] cs[i]).cpu_limit is None;
        assert(ds[i].cpu_limit is None);
    }
    if q.memory_limits is None && p.memory_limits is None {
        let i = choose|i: int| 0 <= i < cs.len() && (#[trigger] cs[i]).memory_limit is None;
        assert(ds[i].memory_limit is None);
    }
    if let Some(l) = q.cpu_limits {
        assert forall|i: int| 0 <= i < ds.len() implies (#[trigger] ds[i]).cpu_limit == Some(
            l[i],
        ) by {
            if i < cs.len() {
                assert(cs[i].cpu_limit == Some(p.cpu_limits->0[i]));
            }
        }
    }
    if let Some(l) = q.memory_limits {
        assert forall|i: int| 0 <= i < ds.len() implies (#[trigger] ds[i]).memory_limit == Some(
            l[i],
        ) by {
            if i < cs.len() {
                assert(cs[i].memory_limit == Some(p.memory_limits->0[i]));
            }
        }
    }
}

/// Every pod of the list uses what its containers use together, in their order.
pub proof fn law_pods_use_what_their_containers_use(cs: Seq<ContainerUsage>, i: int)
    requires
        0 <= i < grouped(cs).len(),
    ensures
        adds_up(
            grouped(cs)[i],
            containers_of(cs, pod_key(grouped(cs)[i].namespace, grouped(cs)[i].name)),
        ),
    decreases cs.len(),
{
    if cs.len() > 0 {
        let d = cs.drop_last();
        let before = grouped(d);
        let c = cs.last();
        let key = pod_key(c.namespace@, c.name@);
        lemma_pod_index(before, key);
        let k = pod_index(before, key);
        let here = pod_key(grouped(cs)[i].namespace, grouped(cs)[i].name);
        lemma_containers_of(cs, here);
        if i < before.len() {
            law_pods_use_what_their_containers_use(d, i);
            if i == k {
                lemma_another_adds_up(before[i], containers_of(d, key), c);
            } else {
                if k < before.len() && here == key {
                    if i < k {
                        law_pods_are_listed_once(d, i, k);
                    } else {
                        law_pods_are_listed_once(d, k, i);
                    }
                }
            }
        } else {
            lemma_no_container(d, key);
            assert(containers_of(cs, key) =~= seq![c]);
            lemma_one_adds_up(c);
        }
    }
}

proof fn lemma_no_container(cs: Seq<ContainerUsage>, key: Seq<char>)
    requires
        pod_index(grouped(cs), key) >= grouped(cs).len(),
    ensures
        containers_of(cs, key).len() == 0,
    decreases cs.len(),
{
    lemma_pod_index(grouped(cs), key);
    if cs.len() > 0 {
        let d = cs.drop_last();
        let before = grouped(d);
        let c = cs.last();
        let own = pod_key(c.namespace@, c.name@);
        lemma_containers_of(cs, key);
        lemma_pod_index(before, own);
        lemma_pod_index(before, key);
        let k = pod_index(before, own);
        if own == key {
            if k < before.len() {
                let q = grouped(cs)[k];
                assert(pod_key(q.namespace, q.name) == key);
            } else {
                let q = grouped(cs)[before.len() as int];
                assert(pod_key(q.namespace, q.name) == key);
            }
        } else {
            let m = pod_index(before, key);
            if m < before.len() {
                let q = grouped(cs)[m];
                assert(pod_key(q.namespace, q.name) == key);
            }
            lemma_no_container(d, key);
        }
    } else {
        reveal(Seq::filter);
    }
}

/// No container is left out: its pod is in the list.
pub proof fn law_every_container_has_its_pod(cs: Seq<ContainerUsage>, i: int)
    requires
        0 <= i < cs.len(),
    ensures
        exists|j: int|
            0 <= j < grouped(cs).len() && pod_key(
                (#[trigger] grouped(cs)[j]).namespace,
                grouped(cs)[j].name,
            ) == pod_key(cs[i].namespace@, cs[i].name@),
{
    let key = pod_key(cs[i].namespace@, cs[i].name@);
    lemma_pod_index(grouped(cs), key);
    if pod_index(grouped(cs), key) >= grouped(cs).len() {
        lemma_no_container(cs, key);
        cs.lemma_filter_contains(|c: ContainerUsage| pod_key(c.namespace@, c.name@) == key, i);
        assert(containers_of(cs, key).contains(cs[i]));
    }
    let j = pod_index(grouped(cs), key);
    assert(pod_key(grouped(cs)[j].namespace, grouped(cs)[j].name) == key);
}

/// The containers to measure are those there are, but for pause containers, and each once.
pub proof fn law_pause_containers_are_not_measured(names: Seq<Seq<char>>, x: Seq<char>)
    ensures
        measurable(names).contains(x) <==> names.contains(x) && !begins(x, "k8s_POD_"@),
        measurable(names).no_duplicates(),
    decreases names.len(),
{
    if names.len() > 0 {
        let d = names.drop_last();
        let m = measurable(d);
        law_pause_containers_are_not_measured(d, x);
        law_pause_containers_are_not_measured(d, names.last());
        assert(names =~= d.push(names.last()));
        assert(names[names.len() - 1] == names.last());
        if d.contains(x) {
            let i = choose|i: int| 0 <= i < d.len() && d[i] == x;
            assert(names[i] == x);
        }
        if names.contains(x) && x != names.last() {
            let i = choose|i: int| 0 <= i < names.len() && names[i] == x;
            assert(d[i] == x);
        }
        let more = m.push(names.last());
        assert(more[m.len() as int] == names.last());
        if m.contains(x) {
            let i = choose|i: int| 0 <= i < m.len() && m[i] == x;
            assert(more[i] == x);
        }
        if more.contains(x) && x != names.last() {
            let i = choose|i: int| 0 <= i < more.len() && more[i] == x;
            assert(m[i] == x);
        }
    }
}

/// A container of a pod names it: the parts of its name are told apart by underscores.
pub proof fn law_containers_name_their_pods(
    container: Seq<char>,
    pod: Seq<char>,
    namespace: Seq<char>,
    rest: Seq<char>,
)
    requires
        !container.contains('_'),
        !pod.contains('_'),
        !namespace.contains('_'),
    ensures
        owner_of("k8s_"@ + container + "_"@ + pod + "_"@ + namespace + "_"@ + rest) == (
            pod,
            namespace,
        ),
{
    reveal_strlit("k8s_");
    reveal_strlit("_");
    let name = "k8s_"@ + container + "_"@ + pod + "_"@ + namespace + "_"@ + rest;
    let k = seq!['k', '8', 's'];
    let r3 = namespace.push('_') + rest;
    let r2 = pod.push('_') + r3;
    let r1 = container.push('_') + r2;
    assert(name =~= k.push('_') + r1);
    assert(!k.contains('_'));
    lemma_pieces_head(k, '_', r1);
    lemma_pieces_head(container, '_', r2);
    lemma_pieces_head(pod, '_', r3);
    lemma_pieces_head(namespace, '_', rest);
    lemma_pieces_nonempty(rest, '_');
    assert(name.subrange(0, 4) =~= "k8s_"@);
    let p = pieces(name, '_');
    assert(p =~= seq![k, container, pod, namespace] + pieces(rest, '_'));
}

/// A container whose name does not begin as those of pods do stands for itself.
pub proof fn law_other_containers_stand_for_themselves(name: Seq<char>)
    requires
        !begins(name, "k8s_"@),
    ensures
        owner_of(name) == (name, "system"@),
{
}

/// The memory that there is for the cluster is a limit of one of its containers, before which none
/// has one; nothing where none has any.
pub proof fn law_first_limit_counts(cs: Seq<ContainerUsage>, k: int)
    ensures
        first_limit(cs) is None <==> forall|i: int|
            0 <= i < cs.len() ==> (#[trigger] cs[i]).memory_limit is None || cs[i].memory_limit
                == Some(0u64),
        0 <= k < cs.len() && cs[k].memory_limit is Some && cs[k].memory_limit->0 > 0 && (forall|
            i: int,
        |
            0 <= i < k ==> (#[trigger] cs[i]).memory_limit is None || cs[i].memory_limit == Some(
                0u64,
            )) ==> first_limit(cs) == cs[k].memory_limit,
    decreases cs.len(),
{
    if cs.len() > 0 {
        let d = cs.drop_last();
        law_first_limit_counts(d, k);
        assert forall|i: int| 0 <= i < d.len() implies #[trigger] d[i] == cs[i] by {}
        assert(cs[cs.len() - 1] == cs.last());
        if first_limit(d) is None && 0 <= k < d.len() {
            assert(d[k] == cs[k]);
        }
        if first_limit(cs) is None {
            assert forall|i: int| 0 <= i < cs.len() implies (#[trigger] cs[i]).memory_limit is None
                || cs[i].memory_limit == Some(0u64) by {
                if i < d.len() {
                    assert(d[i] == cs[i]);
                }
            }
        }
        if forall|i: int|
            0 <= i < cs.len() ==> (#[trigger] cs[i]).memory_limit is None || cs[i].memory_limit
                == Some(0u64) {
            assert forall|i: int| 0 <= i < d.len() implies (#[trigger] d[i]).memory_limit is None
                || d[i].memory_limit == Some(0u64) by {
                assert(d[i] == cs[i]);
            }
        }
        if 0 <= k < cs.len() && (forall|i: int|
            0 <= i < k ==> (#[trigger] cs[i]).memory_limit is None || cs[i].memory_limit == Some(
                0u64,
            )) {
            assert forall|i: int| 0 <= i < k && i < d.len() implies (#[trigger] d[i]).memory_limit
                is None || d[i].memory_limit == Some(0u64) by {
                assert(d[i] == cs[i]);
            }
        }
    }
}

/// A report changes what is remembered of the containers in it that belong to pods, and of no others.
pub proof fn law_reports_touch_their_containers(
    cache: CpuCache,
    cs: Seq<AgentContainer>,
    ts: u64,
    id: Seq<char>,
)
    ensures
        (forall|i: int| 0 <= i < cs.len() ==> (#[trigger] cs[i]).id@ != id || !is_known(cs[i]))
            ==> lookup(cache_after(cache, cs, ts), id) == lookup(cache, id),
        cs.len() > 0 && cs.last().pod@ != "_unknown"@ && cs.last().id@ == id ==> (
        lookup(cache_after(cache, cs, ts), id) matches Some(m) && m.usage_usec == cs.last().cpu_usec
            && m.timestamp_usec == ts),
    decreases cs.len(),
{
    if cs.len() > 0 {
        let d = cs.drop_last();
        let c = cs.last();
        let before = cache_after(cache, d, ts);
        law_reports_touch_their_containers(cache, d, ts, id);
        assert(cs[cs.len() - 1] == c);
        let prev = lookup(before, c.id@);
        let m = remembered(prev, c.cpu_usec, ts, measured_share(prev, c.cpu_usec, ts, false));
        law_put_then_lookup(before, c.id@, m, id);
        if forall|i: int| 0 <= i < cs.len() ==> (#[trigger] cs[i]).id@ != id || !is_known(cs[i]) {
            assert forall|i: int| 0 <= i < d.len() implies (#[trigger] d[i]).id@ != id || !is_known(
                d[i],
            ) by {
                assert(d[i] == cs[i]);
            }
        }
    }
}

/// A limit in a file is read as it is, unless it is nothing or too large; without a number there is
/// none.
pub proof fn law_limits_read_back(s: Seq<char>, n: u64, max: nat)
    requires
        trimmed(s) == decimal(n as nat),
    ensures
        0 < n <= max ==> memory_limit_in(Some(s), max) == Some(n),
        n == 0 || n > max ==> memory_limit_in(Some(s), max) is None,
        memory_limit_in(None, max) is None,
        0 < n <= i64::MAX ==> old_quota_in(Some(s)) == Some(n as nat),
        n == 0 ==> old_quota_in(Some(s)) is None,
        old_quota_in(None) is None,
        period_in(Some(s)) == Some(n as nat),
        period_in(None) == Some(100000nat),
{
    law_decimal_reads_back(n as nat, u64::MAX as nat);
    if n as nat <= max {
        law_decimal_reads_back(n as nat, max);
    } else {
        lemma_decimal(n as nat);
        assert(digit(decimal(n as nat)[0]));
    }
    if n <= i64::MAX {
        law_signed_decimal_reads_back(n as i64);
        assert(signed_decimal(n as int) == decimal(n as nat));
    }
}

/// A negative quota is none.
pub proof fn law_negative_quotas_are_none(s: Seq<char>, n: i64)
    requires
        trimmed(s) == signed_decimal(n as int),
        n <= 0,
    ensures
        old_quota_in(Some(s)) is None,
{
    law_signed_decimal_reads_back(n);
}

/// A quota counts only with a period, and both as they are written.
pub proof fn law_quotas_need_a_period(a: u64, b: u64)
    ensures
        a > 0 && b > 0 ==> quota(Some(a as nat), Some(b as nat)) == Some((a, b)),
        a == 0 || b == 0 ==> quota(Some(a as nat), Some(b as nat)) is None,
        quota(None, Some(b as nat)) is None && quota(Some(a as nat), None) is None,
{
}

/// The first word of the limit is the quota and the second the period; a text with fewer words, or with
/// a word that is no number, is no limit.
pub proof fn law_processor_limits_are_two_words(content: Seq<char>, a: u64, b: u64)
    ensures
        words(content).len() == 2 && words(content)[0] == decimal(a as nat) && words(content)[1]
            == decimal(b as nat) && a > 0 && b > 0 ==> cpu_limit_in(content) == Some((a, b)),
        words(content).len() < 2 ==> cpu_limit_in(content) is None,
        words(content).len() == 2 && words(content)[0] == "max"@ ==> cpu_limit_in(content) is None,
{
    law_decimal_reads_back(a as nat, u64::MAX as nat);
    law_decimal_reads_back(b as nat, u64::MAX as nat);
    reveal_strlit("max");
    law_only_digits_make_numbers("max"@, u64::MAX as nat, 1);
    assert("max"@[1] == 'a');
}

/// Each figure comes from its own file: what another file holds makes no difference to it.
pub proof fn law_each_figure_has_its_file(
    a: Option<String>,
    b: Option<String>,
    c: Option<String>,
    d: Option<String>,
    e: Option<String>,
    f: Option<String>,
    g: Option<String>,
    h: Option<String>,
)
    ensures
        usage_v2(a, b, c, d).usage_usec == usage_v2(a, f, g, h).usage_usec,
        usage_v2(a, b, c, d).cpu_limit == usage_v2(e, b, g, h).cpu_limit,
        usage_v2(a, b, c, d).memory_used == usage_v2(e, f, c, h).memory_used,
        usage_v2(a, b, c, d).memory_limit == usage_v2(e, f, g, d).memory_limit,
        a is Some ==> usage_v2(a, b, c, d).usage_usec == usage_in(a->0@),
        b is Some ==> usage_v2(a, b, c, d).cpu_limit == cpu_limit_in(b->0@),
        c is Some ==> usage_v2(a, b, c, d).memory_used == number_in(Some(c->0@)),
        d is Some ==> usage_v2(a, b, c, d).memory_limit == memory_limit_in(
            Some(d->0@),
            u64::MAX as nat,
        ),
{
}

/// In the first version the processor time is in nanoseconds, and a limit on memory beyond two to the
/// sixtieth is none.
pub proof fn law_first_version_is_converted(
    usage: Option<String>,
    q: Option<String>,
    p: Option<String>,
    m: Option<String>,
    l: Option<String>,
)
    ensures
        usage_v1(usage, q, p, m, l).usage_usec * 1000 <= number_in(opt_view(usage)) < (usage_v1(
            usage,
            q,
            p,
            m,
            l,
        ).usage_usec + 1) * 1000,
        usage_v1(usage, q, p, m, l).cpu_limit == quota(
            old_quota_in(opt_view(q)),
            period_in(opt_view(p)),
        ),
        usage_v1(usage, q, p, m, l).memory_used == number_in(opt_view(m)),
        usage_v1(usage, q, p, m, l).memory_limit matches Some(n) ==> 0 < n <= 0x1000_0000_0000_0000,
        usage_v1(usage, q, p, m, l).memory_limit == memory_limit_in(
            opt_view(l),
            0x1000_0000_0000_0000,
        ),
{
}

/// A container is looked for where Docker runs as root, and where it runs as the user too where there is
/// one.
pub proof fn law_containers_are_looked_for(version: CgroupVersion, uid: Option<u32>, id: Seq<char>)
    ensures
        version is V2 ==> searches(version, uid, id).contains(
            (SearchKind::Pods, "/sys/fs/cgroup/kubepods"@),
        ),
        version is V1 ==> searches(version, uid, id).contains(
            (SearchKind::Pods, "/sys/fs/cgroup/cpu,cpuacct/kubepods"@),
        ) && searches(version, uid, id).contains((SearchKind::Pods, "/sys/fs/cgroup/cpu/kubepods"@)),
        version is V2 && uid is Some ==> searches(version, uid, id).contains(
            (SearchKind::All, user_service(uid->0) + "/docker.service"@),
        ) && searches(version, uid, id).contains(
            (SearchKind::All, user_service(uid->0) + "/docker"@),
        ) && searches(version, uid, id).contains(
            (SearchKind::Here, user_service(uid->0) + "/docker.service"@ + "/"@ + id),
        ),
        version is V1 && uid is Some ==> searches(version, uid, id).contains(
            (SearchKind::All, user_slice("cpu,cpuacct"@, uid->0)),
        ) && searches(version, uid, id).contains((SearchKind::All, user_slice("cpu"@, uid->0))),
        searches(version, None, id).len() < searches(version, Some(0u32), id).len(),
{
    let s = searches(version, uid, id);
    if version is V2 {
        assert(s[0] == (SearchKind::Pods, "/sys/fs/cgroup/kubepods"@));
        if uid is Some {
            assert(s[1] == (
                SearchKind::Here,
                user_service(uid->0) + "/docker.service"@ + "/"@ + id,
            ));
            assert(s[2] == (SearchKind::All, user_service(uid->0) + "/docker.service"@));
            assert(s[4] == (SearchKind::All, user_service(uid->0) + "/docker"@));
        }
    } else {
        assert(s[0] == (SearchKind::Pods, "/sys/fs/cgroup/cpu,cpuacct/kubepods"@));
        assert(s[1] == (SearchKind::Pods, "/sys/fs/cgroup/cpu/kubepods"@));
        if uid is Some {
            assert(s[2] == (SearchKind::All, user_slice("cpu,cpuacct"@, uid->0)));
            assert(s[3] == (SearchKind::All, user_slice("cpu"@, uid->0)));
        }
    }
}

/// The directories of a user are those of their number, and a controller's are below it.
pub proof fn law_users_have_their_directories(uid: u32, controller: Seq<char>)
    ensures
        has_sub(user_service(uid), decimal(uid as nat)),
        has_sub(user_slice(controller, uid), decimal(uid as nat)),
        has_sub(user_slice(controller, uid), controller),
{
    let d = decimal(uid as nat);
    let a = "/sys/fs/cgroup/user.slice/user-"@;
    lemma_has_in(d, d, d);
    lemma_has_in(d, a, d);
    lemma_has_in(d, a + d, ".slice/user@"@);
    lemma_has_in(d, a + d + ".slice/user@"@, d);
    lemma_has_in(d, a + d + ".slice/user@"@ + d, ".service"@);
    let b = "/sys/fs/cgroup/"@;
    let c = controller;
    lemma_has_in(c, c, c);
    lemma_has_in(c, b, c);
    lemma_has_in(c, b + c, "/user.slice/user-"@);
    lemma_has_in(c, b + c + "/user.slice/user-"@, d);
    lemma_has_in(d, b + c + "/user.slice/user-"@, d);
    lemma_has_in(c, b + c + "/user.slice/user-"@ + d, ".slice"@);
    lemma_has_in(d, b + c + "/user.slice/user-"@ + d, ".slice"@);
}

/// A search goes below the groups of pods.
pub proof fn law_searches_go_below_the_groups(name: Seq<char>, rest: Seq<char>)
    ensures
        name == "pod"@ + rest || name == "kubepods"@ + rest || name == "burstable"@ || name
            == "besteffort"@ || name == "guaranteed"@ ==> leads_to_pods(name),
        name.len() < 3 ==> !leads_to_pods(name),
{
    reveal_strlit("pod");
    reveal_strlit("kubepods");
    reveal_strlit("burstable");
    reveal_strlit("besteffort");
    reveal_strlit("guaranteed");
    if name == "pod"@ + rest {
        assert(name.subrange(0, 3) =~= "pod"@);
    }
    if name == "kubepods"@ + rest {
        assert(name.subrange(0, 8) =~= "kubepods"@);
    }
}

/// An empty text and one that begins with an error are complaints; a report is none.
pub proof fn law_reports_are_no_complaints(json: Seq<char>, rest: Seq<char>)
    ensures
        json.len() == 0 ==> is_complaint(json),
        json == "{\"error\""@ + rest ==> is_complaint(json),
        json == "{\"ts\":"@ + rest ==> !is_complaint(json),
        first_chars(json, 200).len() <= 200,
        json.len() <= 200 ==> first_chars(json, 200) == json,
{
    reveal_strlit("{\"error\"");
    reveal_strlit("{\"ts\":");
    if json == "{\"error\""@ + rest {
        assert(json.subrange(0, 8) =~= "{\"error\""@);
    }
    if json == "{\"ts\":"@ + rest && begins(json, "{\"error\""@) {
        let h = json.subrange(0, 8);
        assert(h == "{\"error\""@);
        assert(h[2] == 'e');
        assert(json[2] == 't');
    }
}

/// The pods are those of the containers, in the order of their names.
pub proof fn law_pods_come_in_order(cs: Seq<ContainerUsage>, x: PodUsageView)
    ensures
        pods_by_name(cs).contains(x) <==> grouped(cs).contains(x),
        in_order(pods_by_name(cs)),
        pods_by_name(cs).len() == grouped(cs).len(),
{
    lemma_ranked_contains(grouped(cs), x);
    law_sorting(grouped(cs));
}

/// A search of all directories finds a container no more than three levels down, and goes no further.
pub proof fn law_broad_searches_go_three_levels(name: Seq<char>, id: Seq<char>, depth: int)
    ensures
        broad_verdict(name, id, depth) == DirVerdict::Found <==> name == id && depth < 3,
        broad_verdict(name, id, depth) == DirVerdict::Descend <==> name != id && depth < 2,
{
}

} // verus!
