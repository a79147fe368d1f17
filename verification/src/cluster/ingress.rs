//! Ingress endpoints, their health, and the hosts file that makes them resolvable.

use vstd::prelude::*;
use crate::number::{decimal, u64_text};
use crate::order::{
    law_distinct_texts_are_increasing, law_sorting, lemma_ranked_contains, lemma_ranked_map, ranked,
    sort_ranked, sort_texts, HasRank, Ranked,
};
use crate::machine::tells_success;
use crate::output::{
    info, line_views, say, success, warning, LineView, OutputLine, OutputType,
};
use crate::text::{
    add_once, before, begins, clone_all, contains, ends_with, has_sub, holds, join, joined, joined_once,
    lemma_lines_concat, lemma_lines_of_joined, lemma_views_push, lemma_words_concat,
    lemma_words_single, lines, same, split_lines, split_words, starts_with, views, white, with_text,
    without_return, words,
};
use crate::textmap::{key_index, keyed, law_put_then_lookup, lemma_key_index, lookup, put};

verus! {

/// Health of an ingress endpoint.
#[derive(Debug, Clone, Copy, PartialEq, Eq, Structural)]
pub enum IngressHealthStatus {
    /// Answered with 2xx.
    Healthy,
    /// Answered with 3xx or 4xx.
    Warning,
    /// Answered with another status, or not at all.
    Error,
    /// Not checked yet.
    Unknown,
}

impl IngressHealthStatus {
    /// The dot that stands for the status: a full one, or an empty one while it is unknown.
    pub fn dot(&self) -> (r: &'static str)
        ensures
            r@ == if *self == IngressHealthStatus::Unknown {
                "○"@
            } else {
                "●"@
            },
    {
        match self {
            IngressHealthStatus::Healthy => "●",
            IngressHealthStatus::Warning => "●",
            IngressHealthStatus::Error => "●",
            IngressHealthStatus::Unknown => "○",
        }
    }
}

/// An ingress endpoint with its health.
#[derive(Debug, Clone)]
pub struct IngressInfo {
    pub host: String,
    pub path: String,
    pub health: IngressHealthStatus,
}

/// A host with all its paths.
#[derive(Debug)]
pub struct IngressEntry {
    pub host: String,
    pub paths: Vec<String>,
}

/// What came of an attempt to update the hosts file.
#[derive(Debug)]
pub enum HostsUpdateResult {
    /// All hosts were there, or there are none.
    NoUpdateNeeded,
    /// It was written.
    WrittenDirectly { count: usize },
    /// Writing it needs privileges: this is what to write.
    NeedsSudo { content: String, count: usize },
    /// It cannot be written at all: these are the entries to add by hand.
    ReadOnly { entries: Vec<String> },
}

/// Checks the health of endpoints.
pub struct IngressHealthChecker;

/// The health that an answer means: its status, or nothing where none came.
pub open spec fn health_for(status: Option<u16>) -> IngressHealthStatus {
    match status {
        None => IngressHealthStatus::Error,
        Some(s) => if 200 <= s <= 299 {
            IngressHealthStatus::Healthy
        } else if 300 <= s <= 499 {
            IngressHealthStatus::Warning
        } else {
            IngressHealthStatus::Error
        },
    }
}

impl IngressHealthChecker {
    /// The address of an endpoint.
    pub fn endpoint_url(host: &str, path: &str) -> (r: String)
        ensures
            r@ == "http://"@ + host@ + path@,
    {
        let mut s = "http://".to_owned();
        s.append(host);
        s.append(path);
        s
    }

    /// The key under which the health of an endpoint is kept.
    pub fn endpoint_key(host: &str, path: &str) -> (r: String)
        ensures
            r@ == host@ + "|"@ + path@,
    {
        let mut s = host.to_owned();
        s.append("|");
        s.append(path);
        s
    }

    /// The health that an answer means: its status, or nothing where none came.
    pub fn check_endpoint(status: Option<u16>) -> (r: IngressHealthStatus)
        ensures
            r == health_for(status),
    {
        match status {
            None => IngressHealthStatus::Error,
            Some(s) => if 200 <= s && s <= 299 {
                IngressHealthStatus::Healthy
            } else if 300 <= s && s <= 499 {
                IngressHealthStatus::Warning
            } else {
                IngressHealthStatus::Error
            },
        }
    }

    /// All combinations of a host and one of its paths.
    pub fn check_endpoints(entries: &Vec<IngressEntry>) -> (r: Vec<(String, String)>)
        ensures
            endpoint_views(r@) == all_endpoints(entry_views(entries@)),
    {
        let mut out: Vec<(String, String)> = Vec::new();
        let ghost all = entry_views(entries@);
        let mut i: usize = 0;
        assert(endpoint_views(out@) =~= all_endpoints(all.take(0)));
        while i < entries.len()
            invariant
                i <= entries@.len(),
                all == entry_views(entries@),
                endpoint_views(out@) == all_endpoints(all.take(i as int)),
            decreases entries@.len() - i,
        {
            let ghost before = endpoint_views(out@);
            assert(all.take(i + 1).drop_last() =~= all.take(i as int));
            let e = &entries[i];
            let ghost host = e.host@;
            let ghost paths = views(e.paths@);
            assert(all[i as int] == (host, paths));
            let mut j: usize = 0;
            assert(before + host_endpoints(host, paths.take(0)) =~= before);
            while j < e.paths.len()
                invariant
                    j <= e.paths@.len(),
                    host == e.host@,
                    paths == views(e.paths@),
                    endpoint_views(out@) == before + host_endpoints(host, paths.take(j as int)),
                decreases e.paths@.len() - j,
            {
                let ghost now = endpoint_views(out@);
                let ghost pair = (host, paths[j as int]);
                out.push((e.host.clone(), e.paths[j].clone()));
                assert(endpoint_views(out@) =~= now.push(pair));
                assert(host_endpoints(host, paths.take(j + 1)) =~= host_endpoints(
                    host,
                    paths.take(j as int),
                ).push(pair));
                j = j + 1;
            }
            assert(paths.take(j as int) =~= paths);
            i = i + 1;
        }
        assert(all.take(i as int) =~= all);
        out
    }
}

/// The texts of a list of endpoints.
pub open spec fn endpoint_views(v: Seq<(String, String)>) -> Seq<(Seq<char>, Seq<char>)> {
    Seq::new(v.len(), |i: int| (v[i].0@, v[i].1@))
}

/// The endpoints of one host.
pub open spec fn host_endpoints(host: Seq<char>, paths: Seq<Seq<char>>) -> Seq<(Seq<char>, Seq<char>)> {
    Seq::new(paths.len(), |i: int| (host, paths[i]))
}

/// The endpoints of all hosts.
pub open spec fn all_endpoints(entries: Seq<(Seq<char>, Seq<Seq<char>>)>) -> Seq<
    (Seq<char>, Seq<char>),
>
    decreases entries.len(),
{
    if entries.len() == 0 {
        Seq::empty()
    } else {
        all_endpoints(entries.drop_last()) + host_endpoints(entries.last().0, entries.last().1)
    }
}

// ---------------------------------------------------------------------------
// Hosts and paths of the cluster
// ---------------------------------------------------------------------------

/// The texts of a list of entries.
pub open spec fn entry_views(v: Seq<IngressEntry>) -> Seq<(Seq<char>, Seq<Seq<char>>)> {
    Seq::new(v.len(), |i: int| (v[i].host@, views(v[i].paths@)))
}

impl HasRank for (Seq<char>, Seq<Seq<char>>) {
    open spec fn rank(&self) -> Seq<Seq<char>> {
        seq![self.0]
    }
}

impl HasRank for IngressEntry {
    open spec fn rank(&self) -> Seq<Seq<char>> {
        seq![self.host@]
    }
}

impl Ranked for IngressEntry {
    fn ranks_before(&self, other: &Self) -> (r: bool) {
        self.host.ranks_before(&other.host)
    }
}

/// The dashboard host of Traefik, where a domain is configured.
pub open spec fn dashboard(domain: Option<String>) -> Option<Seq<char>> {
    match domain {
        Some(d) => Some("traefik."@ + d@),
        None => None,
    }
}

/// The texts that are not empty.
pub open spec fn non_empty_texts(s: Seq<Seq<char>>) -> Seq<Seq<char>>
    decreases s.len(),
{
    if s.len() == 0 {
        Seq::empty()
    } else if s.last().len() == 0 {
        non_empty_texts(s.drop_last())
    } else {
        non_empty_texts(s.drop_last()).push(s.last())
    }
}

/// The hosts of the cluster, each once: the dashboard where Traefik is deployed, then those of
/// ingresses and of ingress routes.
pub open spec fn ingress_hosts(
    domain: Option<String>,
    traefik: bool,
    ingresses: Seq<Seq<char>>,
    routes: Seq<Seq<char>>,
) -> Seq<Seq<char>> {
    let first = if traefik && domain is Some {
        seq![dashboard(domain)->0]
    } else {
        Seq::<Seq<char>>::empty()
    };
    joined_once(joined_once(first, non_empty_texts(ingresses)), non_empty_texts(routes))
}

fn add_hosts(hosts: &mut Vec<String>, more: &Vec<String>)
    ensures
        views(final(hosts)@) == joined_once(views(old(hosts)@), non_empty_texts(views(more@))),
{
    let ghost known = views(hosts@);
    let ghost all = views(more@);
    let mut i: usize = 0;
    assert(all.take(0) =~= Seq::<Seq<char>>::empty());
    while i < more.len()
        invariant
            i <= more@.len(),
            all == views(more@),
            views(hosts@) == joined_once(known, non_empty_texts(all.take(i as int))),
        decreases more@.len() - i,
    {
        assert(all.take(i + 1).drop_last() =~= all.take(i as int));
        assert(all.take(i + 1).last() == more@[i as int]@);
        if !more[i].as_str().is_empty() {
            let ghost before = non_empty_texts(all.take(i as int));
            assert(before.push(more@[i as int]@).drop_last() =~= before);
            add_once(hosts, more[i].as_str());
        }
        i = i + 1;
    }
    assert(all.take(i as int) =~= all);
}

/// Hosts with their paths, as they are collected.
pub type HostPaths = Seq<(Seq<char>, Seq<Seq<char>>)>;

/// With a host, perhaps without paths.
pub open spec fn with_host(s: HostPaths, host: Seq<char>) -> HostPaths {
    if lookup(s, host) is Some {
        s
    } else {
        s.push((host, Seq::empty()))
    }
}

/// With a path of a host.
pub open spec fn with_path(s: HostPaths, host: Seq<char>, path: Seq<char>) -> HostPaths {
    let t = with_host(s, host);
    put(t, host, with_text(lookup(t, host)->0, path))
}

/// With paths of a host, one after another.
pub open spec fn with_paths(s: HostPaths, host: Seq<char>, paths: Seq<Seq<char>>) -> HostPaths
    decreases paths.len(),
{
    if paths.len() == 0 {
        with_host(s, host)
    } else {
        with_path(with_paths(s, host, paths.drop_last()), host, paths.last())
    }
}

/// With the hosts and paths of a list of ingresses; those without a host are left out.
pub open spec fn with_entries(s: HostPaths, entries: HostPaths) -> HostPaths
    decreases entries.len(),
{
    if entries.len() == 0 {
        s
    } else {
        let before = with_entries(s, entries.drop_last());
        if entries.last().0.len() == 0 {
            before
        } else {
            with_paths(before, entries.last().0, entries.last().1)
        }
    }
}

/// A host with its paths in order.
pub open spec fn paths_sorted(e: (Seq<char>, Seq<Seq<char>>)) -> (Seq<char>, Seq<Seq<char>>) {
    (e.0, ranked(e.1))
}

/// Hosts in order, each with its paths in order.
pub open spec fn entries_sorted(s: HostPaths) -> HostPaths {
    ranked(Seq::new(s.len(), |i: int| paths_sorted(s[i])))
}

/// What is collected of a cluster: the dashboard where Traefik is deployed, then ingresses, then
/// ingress routes.
pub open spec fn collected(
    domain: Option<String>,
    traefik: bool,
    ingresses: HostPaths,
    routes: HostPaths,
) -> HostPaths {
    let first = if traefik && domain is Some {
        with_path(Seq::empty(), dashboard(domain)->0, "/dashboard/"@)
    } else {
        Seq::empty()
    };
    with_entries(with_entries(first, ingresses), routes)
}

fn entry_index(entries: &Vec<IngressEntry>, host: &str) -> (r: usize)
    ensures
        r == key_index(entry_views(entries@), host@),
        r <= entries@.len(),
{
    let ghost all = entry_views(entries@);
    let mut i: usize = 0;
    proof {
        lemma_key_index(all, host@);
    }
    while i < entries.len()
        invariant
            i <= entries@.len(),
            all == entry_views(entries@),
            forall|j: int| 0 <= j < i ==> (#[trigger] all[j]).0 != host@,
            0 <= key_index(all, host@) <= all.len(),
            forall|j: int|
                0 <= j < key_index(all, host@) ==> (#[trigger] all[j]).0 != host@,
            key_index(all, host@) < all.len() ==> all[key_index(
                all,
                host@,
            )].0 == host@,
        decreases entries@.len() - i,
    {
        assert(all[i as int].0 == entries@[i as int].host@);
        if same(entries[i].host.as_str(), host) {
            return i;
        }
        i = i + 1;
    }
    i
}

fn touch_host(entries: &mut Vec<IngressEntry>, host: &str) -> (i: usize)
    ensures
        entry_views(final(entries)@) == with_host(entry_views(old(entries)@), host@),
        i < final(entries)@.len(),
        i == key_index(entry_views(final(entries)@), host@),
{
    let ghost before = entry_views(entries@);
    let i: usize = entry_index(entries, host);
    proof {
        lemma_key_index(before, host@);
    }
    if i == entries.len() {
        let paths: Vec<String> = Vec::new();
        assert(views(paths@) =~= Seq::<Seq<char>>::empty());
        entries.push(IngressEntry { host: host.to_owned(), paths });
        assert(entry_views(entries@) =~= before.push((host@, Seq::<Seq<char>>::empty())));
        proof {
            let after = entry_views(entries@);
            lemma_key_index(after, host@);
            assert(after[i as int].0 == host@);
            let k = key_index(after, host@);
            if k < i {
                assert(before[k].0 == host@);
            }
        }
    }
    i
}

fn add_path(entries: &mut Vec<IngressEntry>, host: &str, path: &str)
    ensures
        entry_views(final(entries)@) == with_path(entry_views(old(entries)@), host@, path@),
{
    let i: usize = touch_host(entries, host);
    let ghost t = entry_views(entries@);
    assert(t[i as int] == (entries@[i as int].host@, views(entries@[i as int].paths@)));
    proof {
        lemma_key_index(t, host@);
    }
    let mut paths = clone_all(&entries[i].paths);
    add_once(&mut paths, path);
    let e = IngressEntry { host: host.to_owned(), paths };
    let ghost row = (e.host@, views(e.paths@));
    entries.set(i, e);
    assert(entry_views(entries@) =~= t.update(i as int, row));
}

fn add_entries(entries: &mut Vec<IngressEntry>, more: &Vec<IngressEntry>)
    ensures
        entry_views(final(entries)@) == with_entries(
            entry_views(old(entries)@),
            entry_views(more@),
        ),
{
    let ghost s = entry_views(entries@);
    let ghost all = entry_views(more@);
    let mut i: usize = 0;
    assert(all.take(0) =~= Seq::<(Seq<char>, Seq<Seq<char>>)>::empty());
    while i < more.len()
        invariant
            i <= more@.len(),
            all == entry_views(more@),
            entry_views(entries@) == with_entries(s, all.take(i as int)),
        decreases more@.len() - i,
    {
        assert(all.take(i + 1).drop_last() =~= all.take(i as int));
        assert(all.take(i + 1).last() == (more@[i as int].host@, views(more@[i as int].paths@)));
        if !more[i].host.as_str().is_empty() {
            let ghost before = entry_views(entries@);
            let ghost host = more@[i as int].host@;
            let ghost paths = views(more@[i as int].paths@);
            let _at = touch_host(entries, more[i].host.as_str());
            let mut j: usize = 0;
            assert(paths.take(0) =~= Seq::<Seq<char>>::empty());
            while j < more[i].paths.len()
                invariant
                    i < more@.len(),
                    host == more@[i as int].host@,
                    paths == views(more@[i as int].paths@),
                    j <= paths.len(),
                    entry_views(entries@) == with_paths(before, host, paths.take(j as int)),
                decreases paths.len() - j,
            {
                assert(paths.take(j + 1).drop_last() =~= paths.take(j as int));
                assert(paths.take(j + 1).last() == more@[i as int].paths@[j as int]@);
                add_path(entries, more[i].host.as_str(), more[i].paths[j].as_str());
                j = j + 1;
            }
            assert(paths.take(j as int) =~= paths);
        }
        i = i + 1;
    }
    assert(all.take(i as int) =~= all);
}

// ---------------------------------------------------------------------------
// The hosts file
// ---------------------------------------------------------------------------

/// What marks the lines of the hosts file that belong to this program.
pub const HOSTS_MARKER: &'static str = "# k3dev-ingress";

/// The words before one that begins a comment.
pub open spec fn before_comment(w: Seq<Seq<char>>) -> Seq<Seq<char>>
    decreases w.len(),
{
    if w.len() == 0 || begins(w[0], "#"@) {
        Seq::empty()
    } else {
        seq![w[0]] + before_comment(w.skip(1))
    }
}

/// The hosts that a line of the hosts file gives to this machine.
pub open spec fn line_hosts(line: Seq<char>) -> Seq<Seq<char>> {
    let w = words(line);
    if w.len() >= 2 && w[0] == "127.0.0.1"@ {
        before_comment(w.skip(1))
    } else {
        Seq::empty()
    }
}

/// The hosts that lines give to this machine.
pub open spec fn hosts_in(ls: Seq<Seq<char>>) -> Seq<Seq<char>>
    decreases ls.len(),
{
    if ls.len() == 0 {
        Seq::empty()
    } else {
        hosts_in(ls.drop_last()) + line_hosts(ls.last())
    }
}

/// The hosts that a hosts file gives to this machine.
pub open spec fn resolvable(content: Seq<char>) -> Seq<Seq<char>> {
    hosts_in(lines(content))
}

/// Those of `hosts` that are not among `known`.
pub open spec fn missing_from(hosts: Seq<Seq<char>>, known: Seq<Seq<char>>) -> Seq<Seq<char>>
    decreases hosts.len(),
{
    if hosts.len() == 0 {
        Seq::empty()
    } else if known.contains(hosts.last()) {
        missing_from(hosts.drop_last(), known)
    } else {
        missing_from(hosts.drop_last(), known).push(hosts.last())
    }
}

/// The lines without the marked ones.
pub open spec fn unmarked(ls: Seq<Seq<char>>) -> Seq<Seq<char>>
    decreases ls.len(),
{
    if ls.len() == 0 {
        Seq::empty()
    } else if has_sub(ls.last(), HOSTS_MARKER@) {
        unmarked(ls.drop_last())
    } else {
        unmarked(ls.drop_last()).push(ls.last())
    }
}

/// The marked line of a host.
pub open spec fn host_line(host: Seq<char>) -> Seq<char> {
    "127.0.0.1 "@ + host + " "@ + HOSTS_MARKER@
}

/// The marked lines of hosts, in order.
pub open spec fn host_lines(hosts: Seq<Seq<char>>) -> Seq<Seq<char>> {
    ranked(Seq::new(hosts.len(), |i: int| host_line(hosts[i])))
}

/// The lines that stay, ended by a line feed.
pub open spec fn kept_part(content: Seq<char>) -> Seq<char> {
    let kept = joined(unmarked(lines(content)), "\n"@);
    if crate::text::ends(kept, "\n"@) {
        kept
    } else {
        kept.push('\n')
    }
}

/// A hosts file brought up to date: the lines that are not marked, then one line per host.
pub open spec fn updated_content(content: Seq<char>, hosts: Seq<Seq<char>>) -> Seq<char> {
    (kept_part(content) + joined(host_lines(hosts), "\n"@)).push('\n')
}

/// A hosts file without the marked lines.
pub open spec fn cleaned_content(content: Seq<char>) -> Seq<char> {
    joined(unmarked(lines(content)), "\n"@) + "\n"@
}

fn push_line_hosts(line: &str, out: &mut Vec<String>)
    ensures
        views(final(out)@) == views(old(out)@) + line_hosts(line@),
{
    let w = split_words(line);
    let ghost all = words(line@);
    let ghost before = views(out@);
    assert(views(w@).len() == w@.len());
    assert(before + Seq::<Seq<char>>::empty() =~= before);
    if w.len() >= 2 {
        assert(all[0] == w@[0]@);
        if same(w[0].as_str(), "127.0.0.1") {
            let ghost hosts = before_comment(all.skip(1));
            let mut i: usize = 1;
            while i < w.len() && !starts_with(w[i].as_str(), "#")
                invariant
                    1 <= i <= w@.len(),
                    all == views(w@),
                    views(out@) + before_comment(all.skip(i as int)) == before + hosts,
                decreases w@.len() - i,
            {
                let ghost now = views(out@);
                let ghost rest = all.skip(i as int);
                assert(rest[0] == w@[i as int]@);
                assert(rest.skip(1) =~= all.skip(i + 1));
                proof {
                    lemma_views_push(out@, w@[i as int]);
                }
                out.push(w[i].clone());
                assert(now + (seq![rest[0]] + before_comment(rest.skip(1))) =~= views(out@)
                    + before_comment(all.skip(i + 1)));
                i = i + 1;
            }
            assert(i < w@.len() ==> all.skip(i as int)[0] == w@[i as int]@);
            assert(views(out@) + Seq::<Seq<char>>::empty() =~= views(out@));
        }
    }
}

/// The second words of the marked lines.
pub open spec fn marked_hosts(ls: Seq<Seq<char>>) -> Seq<Seq<char>>
    decreases ls.len(),
{
    if ls.len() == 0 {
        Seq::empty()
    } else {
        let rest = marked_hosts(ls.drop_last());
        if has_sub(ls.last(), HOSTS_MARKER@) && words(ls.last()).len() >= 2 {
            rest.push(words(ls.last())[1])
        } else {
            rest
        }
    }
}

/// What an update of the hosts file is about.
#[derive(Debug)]
pub enum HostsPlan {
    /// There are no hosts.
    NoHosts,
    /// All hosts are there.
    UpToDate,
    /// Write this; the entries are also given alone.
    Write { content: String, entries: Vec<String>, count: usize },
}

fn lines_to_keep(content: &str) -> (r: Vec<String>)
    ensures
        views(r@) == unmarked(lines(content@)),
{
    let ls = split_lines(content);
    let ghost all = lines(content@);
    let mut out: Vec<String> = Vec::new();
    let mut i: usize = 0;
    assert(views(out@) =~= unmarked(all.take(0)));
    while i < ls.len()
        invariant
            i <= ls@.len(),
            all == views(ls@),
            views(out@) == unmarked(all.take(i as int)),
        decreases ls@.len() - i,
    {
        assert(all.take(i + 1).drop_last() =~= all.take(i as int));
        assert(all.take(i + 1).last() == ls@[i as int]@);
        if !contains(ls[i].as_str(), HOSTS_MARKER) {
            proof {
                lemma_views_push(out@, ls@[i as int]);
            }
            out.push(ls[i].clone());
        }
        i = i + 1;
    }
    assert(all.take(i as int) =~= all);
    out
}

fn lines_for(hosts: &Vec<String>) -> (r: Vec<String>)
    ensures
        views(r@) == host_lines(views(hosts@)),
{
    let ghost all = Seq::new(views(hosts@).len(), |i: int| host_line(views(hosts@)[i]));
    let mut out: Vec<String> = Vec::new();
    let mut i: usize = 0;
    while i < hosts.len()
        invariant
            i <= hosts@.len(),
            all == Seq::new(views(hosts@).len(), |k: int| host_line(views(hosts@)[k])),
            views(out@) =~= all.take(i as int),
        decreases hosts@.len() - i,
    {
        let mut s = "127.0.0.1 ".to_owned();
        s.append(hosts[i].as_str());
        s.append(" ");
        s.append(HOSTS_MARKER);
        assert(s@ == all[i as int]);
        proof {
            lemma_views_push(out@, s);
        }
        out.push(s);
        i = i + 1;
        assert(all.take(i as int) =~= all.take(i - 1).push(all[i - 1]));
    }
    assert(all.take(i as int) =~= all);
    sort_texts(out)
}

/// Who owns the hosts file and who may write to it.
#[derive(Debug, Clone, Copy)]
pub struct HostsFileMode {
    pub mode: u32,
    pub uid: u32,
    pub is_root: bool,
}

/// Whether a hosts file cannot be written: it belongs to root, who may not write to it either,
/// and this program does not run as root.
pub fn hosts_file_read_only(m: &HostsFileMode) -> (r: bool)
    ensures
        r == (!m.is_root && m.uid == 0 && (m.mode / 128) % 2 == 0),
{
    !m.is_root && m.uid == 0 && (m.mode / 128) % 2 == 0
}

/// What came of an update, given whether the file is read-only and whether it was written.
pub fn finish_update(plan: HostsPlan, read_only: bool, written: bool) -> (r: HostsUpdateResult)
    ensures
        r is WrittenDirectly <==> plan is Write && !read_only && written,
        r is NeedsSudo <==> plan is Write && !read_only && !written,
        r is ReadOnly <==> plan is Write && read_only,
        match plan {
            HostsPlan::Write { content, entries, count } => if read_only {
                r == (HostsUpdateResult::ReadOnly { entries })
            } else if written {
                r == (HostsUpdateResult::WrittenDirectly { count })
            } else {
                r == (HostsUpdateResult::NeedsSudo { content, count })
            },
            _ => r is NoUpdateNeeded,
        },
{
    match plan {
        HostsPlan::Write { content, entries, count } => if read_only {
            HostsUpdateResult::ReadOnly { entries }
        } else if written {
            HostsUpdateResult::WrittenDirectly { count }
        } else {
            HostsUpdateResult::NeedsSudo { content, count }
        },
        _ => HostsUpdateResult::NoUpdateNeeded,
    }
}

/// What is said of the hosts of the cluster.
pub open spec fn hosts_shown(hosts: Seq<Seq<char>>) -> Seq<LineView> {
    if hosts.len() == 0 {
        seq![info("No ingress hosts found"@)]
    } else {
        seq![info("=== Ingress Hosts ==="@)] + Seq::new(
            hosts.len(),
            |i: int| info("  "@ + hosts[i]),
        )
    }
}

/// What is said once it is known what came of an update.
pub open spec fn update_said(plan: HostsPlan, r: HostsUpdateResult) -> Seq<LineView> {
    match plan {
        HostsPlan::NoHosts => seq![info("No ingress hosts found"@)],
        HostsPlan::UpToDate => seq![info("All hosts already in /etc/hosts, skipping update"@)],
        HostsPlan::Write { .. } => match r {
            HostsUpdateResult::NoUpdateNeeded => Seq::empty(),
            HostsUpdateResult::WrittenDirectly { count } => seq![
                success("Updated /etc/hosts with "@ + decimal(count as nat) + " entries"@),
            ],
            HostsUpdateResult::NeedsSudo { .. } => seq![
                info("Requesting elevated privileges to update /etc/hosts..."@),
            ],
            HostsUpdateResult::ReadOnly { entries } => seq![
                warning("Hosts file appears read-only (NixOS/MicroOS/immutable distro)"@),
            ].push(info("Add these entries to your system config:"@)) + Seq::new(
                entries@.len(),
                |i: int| info(entries@[i]@),
            ),
        },
    }
}

/// What is said once it is known what came of an update.
pub fn update_lines(plan: &HostsPlan, r: &HostsUpdateResult) -> (out: Vec<OutputLine>)
    ensures
        line_views(out@) == update_said(*plan, *r),
{
    let mut out: Vec<OutputLine> = Vec::new();
    assert(line_views(out@) =~= Seq::<LineView>::empty());
    match plan {
        HostsPlan::NoHosts => say(&mut out, OutputLine::info("No ingress hosts found")),
        HostsPlan::UpToDate => say(
            &mut out,
            OutputLine::info("All hosts already in /etc/hosts, skipping update"),
        ),
        HostsPlan::Write { .. } => match r {
            HostsUpdateResult::NoUpdateNeeded => {},
            HostsUpdateResult::WrittenDirectly { count } => {
                let mut s = "Updated /etc/hosts with ".to_owned();
                s.append(u64_text(*count as u64).as_str());
                s.append(" entries");
                say(&mut out, OutputLine::success(s.as_str()));
            },
            HostsUpdateResult::NeedsSudo { .. } => say(
                &mut out,
                OutputLine::info("Requesting elevated privileges to update /etc/hosts..."),
            ),
            HostsUpdateResult::ReadOnly { entries } => {
                say(
                    &mut out,
                    OutputLine::warning(
                        "Hosts file appears read-only (NixOS/MicroOS/immutable distro)",
                    ),
                );
                say(&mut out, OutputLine::info("Add these entries to your system config:"));
                let ghost all = update_said(*plan, *r);
                let mut i: usize = 0;
                assert(line_views(out@) =~= all.take(2));
                while i < entries.len()
                    invariant
                        i <= entries@.len(),
                        *r == (HostsUpdateResult::ReadOnly { entries: *entries }),
                        *plan is Write,
                        all == update_said(*plan, *r),
                        line_views(out@) == all.take(i + 2),
                    decreases entries@.len() - i,
                {
                    say(&mut out, OutputLine::info(entries[i].as_str()));
                    assert(all[i + 2] == info(entries@[i as int]@));
                    assert(all.take(i + 3) =~= all.take(i + 2).push(all[i + 2]));
                    i = i + 1;
                }
                assert(all.take(i + 2) =~= all);
            },
        },
    }
    out
}

/// What came of cleaning the hosts file, given whether it was written.
pub fn finish_clean(content: String, written: bool) -> (r: (HostsUpdateResult, OutputLine))
    ensures
        r.0 is WrittenDirectly <==> written,
        r.0 is NeedsSudo <==> !written,
        r.1.kind == OutputType::Success <==> written,
        if written {
            r.0 == (HostsUpdateResult::WrittenDirectly { count: 0 }) && r.1@ == success(
                "Cleaned /etc/hosts entries"@,
            )
        } else {
            r.0 == (HostsUpdateResult::NeedsSudo { content, count: 0 }) && r.1@ == info(
                "Requesting elevated privileges to clean /etc/hosts..."@,
            )
        },
{
    if written {
        (
            HostsUpdateResult::WrittenDirectly { count: 0 },
            OutputLine::success("Cleaned /etc/hosts entries"),
        )
    } else {
        (
            HostsUpdateResult::NeedsSudo { content, count: 0 },
            OutputLine::info("Requesting elevated privileges to clean /etc/hosts..."),
        )
    }
}

/// Knows which hosts the cluster serves and keeps the hosts file in step with them.
#[derive(Debug, Clone)]
pub struct IngressManager {
    pub domain: Option<String>,
}

impl IngressManager {
    /// A manager without a domain.
    pub fn new() -> (r: IngressManager)
        ensures
            r.domain is None,
    {
        IngressManager { domain: None }
    }

    /// A manager with a domain.
    pub fn with_domain(domain: String) -> (r: IngressManager)
        ensures
            r.domain == Some(domain),
    {
        IngressManager { domain: Some(domain) }
    }

    /// The dashboard host of Traefik, where a domain is configured.
    pub fn traefik_dashboard_domain(&self) -> (r: Option<String>)
        ensures
            crate::text::opt_view(r) == dashboard(self.domain),
    {
        match &self.domain {
            Some(d) => {
                let mut s = "traefik.".to_owned();
                s.append(d.as_str());
                Some(s)
            },
            None => None,
        }
    }

    /// The hosts of the cluster, each once.
    pub fn get_ingress_hosts(
        &self,
        traefik: bool,
        ingresses: &Vec<String>,
        routes: &Vec<String>,
    ) -> (r: Vec<String>)
        ensures
            views(r@) == ingress_hosts(self.domain, traefik, views(ingresses@), views(routes@)),
    {
        let mut hosts: Vec<String> = Vec::new();
        assert(views(hosts@) =~= Seq::<Seq<char>>::empty());
        if traefik {
            if let Some(d) = self.traefik_dashboard_domain() {
                proof {
                    lemma_views_push(hosts@, d);
                }
                hosts.push(d);
            }
        }
        add_hosts(&mut hosts, ingresses);
        add_hosts(&mut hosts, routes);
        hosts
    }

    /// The hosts of the cluster in order, each with its paths in order and without repetition.
    pub fn get_ingress_entries(
        &self,
        traefik: bool,
        ingresses: &Vec<IngressEntry>,
        routes: &Vec<IngressEntry>,
    ) -> (r: Vec<IngressEntry>)
        ensures
            entry_views(r@) == entries_sorted(
                collected(self.domain, traefik, entry_views(ingresses@), entry_views(routes@)),
            ),
    {
        let mut entries: Vec<IngressEntry> = Vec::new();
        assert(entry_views(entries@) =~= Seq::<(Seq<char>, Seq<Seq<char>>)>::empty());
        if traefik {
            if let Some(d) = self.traefik_dashboard_domain() {
                add_path(&mut entries, d.as_str(), "/dashboard/");
            }
        }
        add_entries(&mut entries, ingresses);
        add_entries(&mut entries, routes);
        let ghost all = entry_views(entries@);
        let ghost done = Seq::new(all.len(), |i: int| paths_sorted(all[i]));
        let mut sorted: Vec<IngressEntry> = Vec::new();
        let mut i: usize = 0;
        while i < entries.len()
            invariant
                i <= entries@.len(),
                all == entry_views(entries@),
                done == Seq::new(all.len(), |k: int| paths_sorted(all[k])),
                entry_views(sorted@) =~= done.take(i as int),
            decreases entries@.len() - i,
        {
            let ghost before = entry_views(sorted@);
            let e = IngressEntry {
                host: entries[i].host.clone(),
                paths: sort_texts(clone_all(&entries[i].paths)),
            };
            let ghost row = (e.host@, views(e.paths@));
            sorted.push(e);
            assert(entry_views(sorted@) =~= before.push(row));
            i = i + 1;
        }
        assert(done.take(i as int) =~= done);
        let ghost rows = sorted@;
        let r = sort_ranked(sorted);
        proof {
            let f = |x: IngressEntry| (x.host@, views(x.paths@));
            assert(entry_views(rows) =~= rows.map_values(f));
            assert(entry_views(r@) =~= r@.map_values(f));
            lemma_ranked_map(rows, f);
        }
        r
    }

    /// The hosts that a hosts file gives to this machine.
    pub fn get_all_hosts_from_etc_hosts(&self, content: &str) -> (r: Vec<String>)
        ensures
            views(r@) == resolvable(content@),
    {
        let ls = split_lines(content);
        let ghost all = lines(content@);
        let mut out: Vec<String> = Vec::new();
        let mut i: usize = 0;
        assert(views(out@) =~= hosts_in(all.take(0)));
        while i < ls.len()
            invariant
                i <= ls@.len(),
                all == views(ls@),
                views(out@) == hosts_in(all.take(i as int)),
            decreases ls@.len() - i,
        {
            assert(all.take(i + 1).drop_last() =~= all.take(i as int));
            assert(all.take(i + 1).last() == ls@[i as int]@);
            push_line_hosts(ls[i].as_str(), &mut out);
            i = i + 1;
        }
        assert(all.take(i as int) =~= all);
        out
    }

    /// The hosts on the marked lines of a hosts file.
    pub fn get_k3dev_hosts_from_etc_hosts(&self, content: &str) -> (r: Vec<String>)
        ensures
            views(r@) == marked_hosts(lines(content@)),
    {
        let ls = split_lines(content);
        let ghost all = lines(content@);
        let mut out: Vec<String> = Vec::new();
        let mut i: usize = 0;
        assert(views(out@) =~= marked_hosts(all.take(0)));
        while i < ls.len()
            invariant
                i <= ls@.len(),
                all == views(ls@),
                views(out@) == marked_hosts(all.take(i as int)),
            decreases ls@.len() - i,
        {
            assert(all.take(i + 1).drop_last() =~= all.take(i as int));
            assert(all.take(i + 1).last() == ls@[i as int]@);
            if contains(ls[i].as_str(), HOSTS_MARKER) {
                let w = split_words(ls[i].as_str());
                assert(views(w@).len() == w@.len());
                if w.len() >= 2 {
                    assert(views(w@)[1] == w@[1]@);
                    proof {
                        lemma_views_push(out@, w@[1]);
                    }
                    out.push(w[1].clone());
                }
            }
            i = i + 1;
        }
        assert(all.take(i as int) =~= all);
        out
    }

    /// Those of the hosts that the hosts file does not give to this machine.
    pub fn get_missing_hosts(&self, hosts: &Vec<String>, content: &str) -> (r: Vec<String>)
        ensures
            views(r@) == missing_from(views(hosts@), resolvable(content@)),
    {
        let known = self.get_all_hosts_from_etc_hosts(content);
        let ghost all = views(hosts@);
        let mut out: Vec<String> = Vec::new();
        let mut i: usize = 0;
        assert(views(out@) =~= missing_from(all.take(0), views(known@)));
        while i < hosts.len()
            invariant
                i <= hosts@.len(),
                all == views(hosts@),
                views(out@) == missing_from(all.take(i as int), views(known@)),
            decreases hosts@.len() - i,
        {
            assert(all.take(i + 1).drop_last() =~= all.take(i as int));
            assert(all.take(i + 1).last() == hosts@[i as int]@);
            if !holds(&known, hosts[i].as_str()) {
                proof {
                    lemma_views_push(out@, hosts@[i as int]);
                }
                out.push(hosts[i].clone());
            }
            i = i + 1;
        }
        assert(all.take(i as int) =~= all);
        out
    }

    /// Whether some host is missing from the hosts file.
    pub fn hosts_need_update(&self, hosts: &Vec<String>, content: &str) -> (r: bool)
        ensures
            r == (missing_from(views(hosts@), resolvable(content@)).len() > 0),
    {
        let missing = self.get_missing_hosts(hosts, content);
        assert(views(missing@).len() == missing@.len());
        missing.len() > 0
    }

    /// What an update of the hosts file with the hosts of the cluster is about.
    pub fn update_hosts(&self, hosts: &Vec<String>, content: &str) -> (r: HostsPlan)
        ensures
            r is NoHosts <==> hosts@.len() == 0,
            r is UpToDate ==> forall|h: Seq<char>| #[trigger]
                views(hosts@).contains(h) ==> resolvable(content@).contains(h),
            r is Write ==> exists|h: Seq<char>| #[trigger]
                views(hosts@).contains(h) && !resolvable(content@).contains(h),
            hosts@.len() > 0 && missing_from(views(hosts@), resolvable(content@)).len() == 0 ==> r
                is UpToDate,
            hosts@.len() > 0 && missing_from(views(hosts@), resolvable(content@)).len() > 0 ==> {
                &&& r matches HostsPlan::Write { content: c, entries, count }
                &&& c@ == updated_content(content@, views(hosts@))
                &&& views(entries@) == host_lines(views(hosts@))
                &&& count == hosts@.len()
            },
    {
        if hosts.len() == 0 {
            return HostsPlan::NoHosts;
        }
        if !self.hosts_need_update(hosts, content) {
            proof {
                assert forall|h: Seq<char>| #[trigger] views(hosts@).contains(h) implies resolvable(
                    content@,
                ).contains(h) by {
                    law_missing_hosts_are_those_not_known(views(hosts@), resolvable(content@), h);
                }
            }
            return HostsPlan::UpToDate;
        }
        proof {
            let missing = missing_from(views(hosts@), resolvable(content@));
            law_missing_hosts_are_those_not_known(
                views(hosts@),
                resolvable(content@),
                missing[0],
            );
            assert(missing.contains(missing[0]));
        }
        let kept = lines_to_keep(content);
        let entries = lines_for(hosts);
        let mut s = join(&kept, "\n");
        if !ends_with(s.as_str(), "\n") {
            s.push('\n');
        }
        s.append(join(&entries, "\n").as_str());
        s.push('\n');
        HostsPlan::Write { content: s, entries, count: hosts.len() }
    }

    /// A hosts file without the lines of this program.
    pub fn clean_hosts(&self, content: &str) -> (r: String)
        ensures
            r@ == cleaned_content(content@),
    {
        let kept = lines_to_keep(content);
        let mut s = join(&kept, "\n");
        s.append("\n");
        s
    }

    /// What is said of the hosts of the cluster.
    pub fn show_hosts(&self, hosts: &Vec<String>) -> (r: Vec<OutputLine>)
        ensures
            line_views(r@) == hosts_shown(views(hosts@)),
    {
        let mut out: Vec<OutputLine> = Vec::new();
        assert(line_views(out@) =~= Seq::<LineView>::empty());
        if hosts.len() == 0 {
            say(&mut out, OutputLine::info("No ingress hosts found"));
            assert(line_views(out@) =~= hosts_shown(views(hosts@)));
            return out;
        }
        say(&mut out, OutputLine::info("=== Ingress Hosts ==="));
        let ghost all = hosts_shown(views(hosts@));
        let mut i: usize = 0;
        assert(line_views(out@) =~= all.take(1));
        while i < hosts.len()
            invariant
                0 < hosts@.len(),
                i <= hosts@.len(),
                all == hosts_shown(views(hosts@)),
                line_views(out@) == all.take(i + 1),
            decreases hosts@.len() - i,
        {
            let mut s = "  ".to_owned();
            s.append(hosts[i].as_str());
            assert(all[i + 1] == info("  "@ + views(hosts@)[i as int]));
            say(&mut out, OutputLine::info(s.as_str()));
            assert(all.take(i + 2) =~= all.take(i + 1).push(all[i + 1]));
            i = i + 1;
        }
        assert(all.take(i + 1) =~= all);
        out
    }
}

// ---------------------------------------------------------------------------
// Laws
// ---------------------------------------------------------------------------

/// Whether a text can stand as a host in a hosts file.
pub open spec fn plain_host(h: Seq<char>) -> bool {
    h.len() > 0 && h[0] != '#' && forall|i: int| 0 <= i < h.len() ==> !white(#[trigger] h[i])
}

/// A host is read back from its line.
pub proof fn law_host_line_reads_back(h: Seq<char>)
    requires
        plain_host(h),
    ensures
        line_hosts(host_line(h)) == seq![h],
{
    reveal_strlit("127.0.0.1 ");
    reveal_strlit("127.0.0.1");
    reveal_strlit(" ");
    reveal_strlit("#");
    reveal_strlit("# k3dev-ingress");
    let ip = "127.0.0.1"@;
    let a = "127.0.0.1 "@;
    let b = h + " "@;
    let c = seq!['#', ' '];
    let d = seq!['k', '3', 'd', 'e', 'v', '-', 'i', 'n', 'g', 'r', 'e', 's', 's'];
    let hash = seq!['#'];
    assert(host_line(h) =~= a + (b + (c + d)));
    lemma_words_concat(a, b + (c + d));
    lemma_words_concat(b, c + d);
    lemma_words_concat(c, d);
    assert(a.drop_last() =~= ip);
    lemma_words_single(ip);
    assert(words(a) == words(ip));
    assert(b.drop_last() =~= h);
    lemma_words_single(h);
    assert(words(b) == words(h));
    assert(c.drop_last() =~= hash);
    lemma_words_single(hash);
    assert(words(c) == words(hash));
    lemma_words_single(d);
    let w = words(host_line(h));
    assert(w =~= seq![ip, h, hash, d]);
    assert(!begins(h, "#"@)) by {
        if begins(h, "#"@) {
            assert(h.subrange(0, 1)[0] == h[0]);
        }
    }
    assert(begins(hash, "#"@)) by {
        assert(hash.subrange(0, 1) =~= "#"@);
    }
    let t = w.skip(1);
    assert(t[0] == h);
    assert(t.skip(1)[0] == hash);
    assert(before_comment(t.skip(1)) =~= Seq::<Seq<char>>::empty());
    assert(before_comment(t) =~= seq![h]);
}

proof fn lemma_hosts_in_concat(a: Seq<Seq<char>>, b: Seq<Seq<char>>)
    ensures
        hosts_in(a + b) == hosts_in(a) + hosts_in(b),
    decreases b.len(),
{
    if b.len() == 0 {
        assert(a + b =~= a);
        assert(hosts_in(a) + hosts_in(b) =~= hosts_in(a));
    } else {
        lemma_hosts_in_concat(a, b.drop_last());
        assert((a + b).drop_last() =~= a + b.drop_last());
        assert(hosts_in(a + b) =~= hosts_in(a) + hosts_in(b));
    }
}

proof fn lemma_hosts_in_contains(ls: Seq<Seq<char>>, i: int, h: Seq<char>)
    requires
        0 <= i < ls.len(),
        line_hosts(ls[i]).contains(h),
    ensures
        hosts_in(ls).contains(h),
    decreases ls.len(),
{
    let d = hosts_in(ls.drop_last());
    let l = line_hosts(ls.last());
    if i == ls.len() - 1 {
        let k = choose|k: int| 0 <= k < l.len() && l[k] == h;
        assert((d + l)[d.len() + k] == h);
    } else {
        assert(ls.drop_last()[i] == ls[i]);
        lemma_hosts_in_contains(ls.drop_last(), i, h);
        let k = choose|k: int| 0 <= k < d.len() && d[k] == h;
        assert((d + l)[k] == h);
    }
}

proof fn lemma_host_line_is_line(h: Seq<char>)
    requires
        plain_host(h),
    ensures
        !host_line(h).contains('\n'),
        without_return(host_line(h)) == host_line(h),
{
    reveal_strlit("127.0.0.1 ");
    reveal_strlit(" ");
    reveal_strlit("# k3dev-ingress");
    let l = host_line(h);
    assert(l.last() == 's');
    if l.contains('\n') {
        let k = choose|k: int| 0 <= k < l.len() && l[k] == '\n';
        let a = "127.0.0.1 "@.len();
        if a <= k < a + h.len() {
            assert(h[k - a] == '\n');
            assert(white(h[k - a]));
        } else if k >= a + h.len() {
            let rest = " "@ + "# k3dev-ingress"@;
            assert(l =~= "127.0.0.1 "@ + h + rest);
            assert(rest[k - a - h.len()] == '\n');
        }
    }
}

/// Everything that is asked for is resolvable after an update.
pub proof fn law_update_makes_hosts_resolvable(content: Seq<char>, hosts: Seq<Seq<char>>, i: int)
    requires
        0 <= i < hosts.len(),
        forall|j: int| 0 <= j < hosts.len() ==> plain_host(#[trigger] hosts[j]),
    ensures
        resolvable(updated_content(content, hosts)).contains(hosts[i]),
{
    reveal_strlit("\n");
    let raw = Seq::new(hosts.len(), |k: int| host_line(hosts[k]));
    let entries = host_lines(hosts);
    crate::order::law_sorting(raw);
    raw.to_multiset_ensures();
    entries.to_multiset_ensures();
    assert forall|k: int| 0 <= k < entries.len() implies !(#[trigger] entries[k]).contains('\n')
        && without_return(entries[k]) == entries[k] by {
        assert(entries.to_multiset().count(entries[k]) > 0);
        assert(raw.contains(entries[k]));
        let m = choose|m: int| 0 <= m < raw.len() && raw[m] == entries[k];
        lemma_host_line_is_line(hosts[m]);
    }
    let kept = kept_part(content);
    let base = joined(unmarked(lines(content)), "\n"@);
    assert(kept.len() > 0 && kept.last() == '\n') by {
        if crate::text::ends(base, "\n"@) {
            assert(base.subrange(base.len() - 1, base.len() as int)[0] == base.last());
        }
    }
    assert("\n"@ =~= seq!['\n']);
    let tail = joined(entries, seq!['\n']).push('\n');
    lemma_lines_of_joined(entries);
    assert(lines(tail) =~= entries);
    assert(updated_content(content, hosts) =~= kept + tail);
    lemma_lines_concat(kept, tail);
    lemma_hosts_in_concat(lines(kept), entries);
    assert(raw[i] == host_line(hosts[i]));
    assert(raw.contains(raw[i]));
    assert(entries.to_multiset().count(raw[i]) > 0);
    assert(entries.contains(raw[i]));
    let m = choose|m: int| 0 <= m < entries.len() && entries[m] == raw[i];
    law_host_line_reads_back(hosts[i]);
    assert(line_hosts(entries[m])[0] == hosts[i]);
    lemma_hosts_in_contains(entries, m, hosts[i]);
    let p = hosts_in(lines(kept));
    let q = hosts_in(entries);
    let k = choose|k: int| 0 <= k < q.len() && q[k] == hosts[i];
    assert((p + q)[p.len() + k] == hosts[i]);
}

proof fn lemma_nothing_missing(hosts: Seq<Seq<char>>, known: Seq<Seq<char>>)
    requires
        forall|j: int| 0 <= j < hosts.len() ==> known.contains(#[trigger] hosts[j]),
    ensures
        missing_from(hosts, known).len() == 0,
    decreases hosts.len(),
{
    if hosts.len() > 0 {
        assert forall|j: int| 0 <= j < hosts.drop_last().len() implies known.contains(
            #[trigger] hosts.drop_last()[j],
        ) by {
            assert(hosts.drop_last()[j] == hosts[j]);
        }
        lemma_nothing_missing(hosts.drop_last(), known);
        assert(known.contains(hosts[hosts.len() - 1]));
    }
}

/// After an update there is nothing left to update.
pub proof fn law_update_is_enough(content: Seq<char>, hosts: Seq<Seq<char>>)
    requires
        forall|j: int| 0 <= j < hosts.len() ==> plain_host(#[trigger] hosts[j]),
    ensures
        missing_from(hosts, resolvable(updated_content(content, hosts))).len() == 0,
{
    assert forall|j: int| 0 <= j < hosts.len() implies resolvable(
        updated_content(content, hosts),
    ).contains(#[trigger] hosts[j]) by {
        law_update_makes_hosts_resolvable(content, hosts, j);
    }
    lemma_nothing_missing(hosts, resolvable(updated_content(content, hosts)));
}

proof fn lemma_unmarked(ls: Seq<Seq<char>>)
    ensures
        forall|i: int|
            0 <= i < unmarked(ls).len() ==> !has_sub(#[trigger] unmarked(ls)[i], HOSTS_MARKER@)
                && ls.contains(unmarked(ls)[i]),
    decreases ls.len(),
{
    if ls.len() > 0 {
        lemma_unmarked(ls.drop_last());
        let d = unmarked(ls.drop_last());
        assert forall|i: int| 0 <= i < unmarked(ls).len() implies !has_sub(
            #[trigger] unmarked(ls)[i],
            HOSTS_MARKER@,
        ) && ls.contains(unmarked(ls)[i]) by {
            if i < d.len() {
                assert(unmarked(ls)[i] == d[i]);
                let k = choose|k: int|
                    0 <= k < ls.drop_last().len() && ls.drop_last()[k] == d[i];
                assert(ls[k] == d[i]);
            } else {
                assert(unmarked(ls)[i] == ls[ls.len() - 1]);
            }
        }
    }
}

proof fn lemma_unmarked_all(ls: Seq<Seq<char>>)
    requires
        forall|i: int| 0 <= i < ls.len() ==> !has_sub(#[trigger] ls[i], HOSTS_MARKER@),
    ensures
        unmarked(ls) == ls,
    decreases ls.len(),
{
    if ls.len() > 0 {
        let d = ls.drop_last();
        assert forall|i: int| 0 <= i < d.len() implies !has_sub(#[trigger] d[i], HOSTS_MARKER@) by {
            assert(d[i] == ls[i]);
        }
        lemma_unmarked_all(d);
        assert(!has_sub(ls[ls.len() - 1], HOSTS_MARKER@));
        assert(unmarked(ls) =~= ls);
    } else {
        assert(unmarked(ls) =~= ls);
    }
}

proof fn lemma_without_return_has_no_marker(l: Seq<char>)
    requires
        !has_sub(l, HOSTS_MARKER@),
    ensures
        !has_sub(without_return(l), HOSTS_MARKER@),
{
    let w = without_return(l);
    if has_sub(w, HOSTS_MARKER@) {
        let i = choose|i: int| #[trigger] crate::text::occurs_at(w, HOSTS_MARKER@, i);
        let n = HOSTS_MARKER@.len();
        assert(l.subrange(i, i + n) =~= w.subrange(i, i + n));
        assert(crate::text::occurs_at(l, HOSTS_MARKER@, i));
    }
}

/// An update keeps every line that is not marked, but for empty lines at the end of the file and
/// for carriage returns.
pub proof fn law_update_keeps_other_lines(content: Seq<char>, hosts: Seq<Seq<char>>, i: int)
    requires
        0 <= i < lines(content).len(),
        lines(content)[i].len() > 0,
        !has_sub(lines(content)[i], HOSTS_MARKER@),
    ensures
        lines(updated_content(content, hosts)).contains(without_return(lines(content)[i])),
{
    reveal_strlit("\n");
    assert("\n"@ =~= seq!['\n']);
    let line = lines(content)[i];
    let kept = unmarked(lines(content));
    lemma_unmarked(lines(content));
    lemma_unmarked_contains(lines(content), i);
    let k = choose|k: int| 0 <= k < kept.len() && kept[k] == line;
    crate::text::lemma_lines_clean(content);
    assert forall|m: int| 0 <= m < kept.len() implies !(#[trigger] kept[m]).contains('\n') by {
        assert(lines(content).contains(kept[m]));
        let n = choose|n: int| 0 <= n < lines(content).len() && lines(content)[n] == kept[m];
        assert(!lines(content)[n].contains('\n'));
    }
    let base = joined(kept, seq!['\n']);
    let part = kept_part(content);
    crate::text::lemma_pieces_of_joined(kept, '\n');
    lemma_lines_of_joined(kept);
    if crate::text::ends(base, "\n"@) {
        assert(base.subrange(base.len() - 1, base.len() as int)[0] == base.last());
        assert(kept.last().len() == 0);
        assert(lines(part)[k] == without_return(line));
    } else {
        assert(lines(part)[k] == without_return(line));
    }
    assert(part.len() > 0 && part.last() == '\n');
    let tail = joined(host_lines(hosts), seq!['\n']).push('\n');
    assert(updated_content(content, hosts) =~= part + tail);
    lemma_lines_concat(part, tail);
    assert((lines(part) + lines(tail))[k] == without_return(line));
}

proof fn lemma_unmarked_contains(ls: Seq<Seq<char>>, i: int)
    requires
        0 <= i < ls.len(),
        !has_sub(ls[i], HOSTS_MARKER@),
    ensures
        unmarked(ls).contains(ls[i]),
    decreases ls.len(),
{
    let d = unmarked(ls.drop_last());
    if i == ls.len() - 1 {
        assert(unmarked(ls)[d.len() as int] == ls[i]);
    } else {
        assert(ls.drop_last()[i] == ls[i]);
        lemma_unmarked_contains(ls.drop_last(), i);
        let k = choose|k: int| 0 <= k < d.len() && d[k] == ls[i];
        assert(unmarked(ls)[k] == ls[i]);
    }
}

/// Cleaning leaves no marked line, and only lines that were there, but for carriage returns.
pub proof fn law_cleaning_removes_marked_lines(content: Seq<char>)
    ensures
        ({
            let kept = unmarked(lines(content));
            kept.len() > 0 ==> lines(cleaned_content(content)) == Seq::new(
                kept.len(),
                |i: int| without_return(kept[i]),
            )
        }),
        unmarked(lines(cleaned_content(content))) == lines(cleaned_content(content)),
{
    reveal_strlit("\n");
    assert("\n"@ =~= seq!['\n']);
    let kept = unmarked(lines(content));
    lemma_unmarked(lines(content));
    crate::text::lemma_lines_clean(content);
    assert forall|i: int| 0 <= i < kept.len() implies !(#[trigger] kept[i]).contains('\n') by {
        assert(lines(content).contains(kept[i]));
        let k = choose|k: int| 0 <= k < lines(content).len() && lines(content)[k] == kept[i];
        assert(!lines(content)[k].contains('\n'));
    }
    let s = cleaned_content(content);
    assert(s =~= joined(kept, seq!['\n']).push('\n'));
    if kept.len() > 0 {
        lemma_lines_of_joined(kept);
        let ls = Seq::new(kept.len(), |i: int| without_return(kept[i]));
        assert forall|i: int| 0 <= i < ls.len() implies !has_sub(#[trigger] ls[i], HOSTS_MARKER@) by {
            lemma_without_return_has_no_marker(kept[i]);
        }
        lemma_unmarked_all(ls);
    } else {
        assert(s =~= seq!['\n']);
        assert(s.drop_last() =~= Seq::<char>::empty());
        crate::text::lemma_pieces_single(Seq::<char>::empty(), '\n');
        assert(crate::text::pieces(s, '\n') == crate::text::pieces(s.drop_last(), '\n').push(
            Seq::empty(),
        ));
        assert(crate::text::pieces(s, '\n') =~= seq![Seq::<char>::empty(), Seq::<char>::empty()]);
        assert(lines(s) =~= seq![Seq::<char>::empty()]);
        assert(!has_sub(Seq::<char>::empty(), HOSTS_MARKER@)) by {
            reveal_strlit("# k3dev-ingress");
        }
        lemma_unmarked_all(lines(s));
    }
}

/// The hosts of entries.
pub open spec fn hosts_of(s: HostPaths) -> Seq<Seq<char>> {
    s.map_values(|e: (Seq<char>, Seq<Seq<char>>)| e.0)
}

/// Whether no host is empty or occurs twice, and no path of a host occurs twice.
spec fn well_collected(s: HostPaths) -> bool {
    &&& keyed(s)
    &&& forall|i: int| 0 <= i < s.len() ==> (#[trigger] s[i]).0.len() > 0 && s[i].1.no_duplicates()
}

proof fn lemma_with_text_distinct(s: Seq<Seq<char>>, x: Seq<char>)
    requires
        s.no_duplicates(),
    ensures
        with_text(s, x).no_duplicates(),
{
    if !s.contains(x) {
        assert forall|i: int, j: int|
            0 <= i < s.push(x).len() && 0 <= j < s.push(x).len() && i != j implies s.push(x)[i]
            != s.push(x)[j] by {
            if i < s.len() && j < s.len() {
                assert(s[i] != s[j]);
            } else if i < s.len() {
                assert(s.contains(s[i]));
            } else {
                assert(s.contains(s[j]));
            }
        }
    }
}

proof fn lemma_with_host(s: HostPaths, host: Seq<char>, h: Seq<char>)
    requires
        well_collected(s),
        host.len() > 0,
    ensures
        well_collected(with_host(s, host)),
        lookup(with_host(s, host), host) is Some,
        hosts_of(with_host(s, host)).contains(h) <==> hosts_of(s).contains(h) || h == host,
{
    lemma_key_index(s, host);
    let t = with_host(s, host);
    let k = key_index(s, host);
    if k < s.len() {
        assert(hosts_of(s)[k] == host);
    } else {
        law_put_then_lookup(s, host, Seq::<Seq<char>>::empty(), host);
        assert(t == put(s, host, Seq::<Seq<char>>::empty()));
        assert forall|i: int| 0 <= i < t.len() implies (#[trigger] t[i]).0.len() > 0
            && t[i].1.no_duplicates() by {
            if i < s.len() {
                assert(t[i] == s[i]);
            }
        }
        assert(hosts_of(t) =~= hosts_of(s).push(host));
        if hosts_of(s).contains(h) {
            let j = choose|j: int| 0 <= j < hosts_of(s).len() && hosts_of(s)[j] == h;
            assert(hosts_of(t)[j] == h);
        }
        assert(hosts_of(t)[s.len() as int] == host);
        if hosts_of(t).contains(h) && h != host {
            let j = choose|j: int| 0 <= j < hosts_of(t).len() && hosts_of(t)[j] == h;
            assert(hosts_of(s)[j] == h);
        }
    }
}

proof fn lemma_with_path(s: HostPaths, host: Seq<char>, path: Seq<char>, h: Seq<char>)
    requires
        well_collected(s),
        host.len() > 0,
    ensures
        well_collected(with_path(s, host, path)),
        hosts_of(with_path(s, host, path)).contains(h) <==> hosts_of(s).contains(h) || h == host,
{
    lemma_with_host(s, host, h);
    let t = with_host(s, host);
    lemma_key_index(t, host);
    let k = key_index(t, host);
    let v = with_text(t[k].1, path);
    lemma_with_text_distinct(t[k].1, path);
    law_put_then_lookup(t, host, v, host);
    let u = with_path(s, host, path);
    assert(u == t.update(k, (host, v)));
    assert forall|i: int| 0 <= i < u.len() implies (#[trigger] u[i]).0.len() > 0
        && u[i].1.no_duplicates() by {
        assert(t[i].0.len() > 0);
    }
    assert(hosts_of(u) =~= hosts_of(t));
}

proof fn lemma_with_paths(s: HostPaths, host: Seq<char>, paths: Seq<Seq<char>>, h: Seq<char>)
    requires
        well_collected(s),
        host.len() > 0,
    ensures
        well_collected(with_paths(s, host, paths)),
        hosts_of(with_paths(s, host, paths)).contains(h) <==> hosts_of(s).contains(h) || h == host,
    decreases paths.len(),
{
    if paths.len() == 0 {
        lemma_with_host(s, host, h);
    } else {
        lemma_with_paths(s, host, paths.drop_last(), h);
        lemma_with_path(with_paths(s, host, paths.drop_last()), host, paths.last(), h);
    }
}

proof fn lemma_with_entries(s: HostPaths, entries: HostPaths, h: Seq<char>)
    requires
        well_collected(s),
    ensures
        well_collected(with_entries(s, entries)),
        hosts_of(with_entries(s, entries)).contains(h) <==> hosts_of(s).contains(h) || (h.len() > 0
            && hosts_of(entries).contains(h)),
    decreases entries.len(),
{
    if entries.len() > 0 {
        let d = entries.drop_last();
        lemma_with_entries(s, d, h);
        let (a, b) = (hosts_of(entries), hosts_of(d));
        assert(a =~= b.push(entries.last().0));
        assert(a[a.len() - 1] == entries.last().0);
        if b.contains(h) {
            let j = choose|j: int| 0 <= j < b.len() && b[j] == h;
            assert(a[j] == h);
        }
        if a.contains(h) && h != entries.last().0 {
            let j = choose|j: int| 0 <= j < a.len() && a[j] == h;
            assert(b[j] == h);
        }
        if entries.last().0.len() > 0 {
            lemma_with_paths(with_entries(s, d), entries.last().0, entries.last().1, h);
        }
    }
}

proof fn lemma_joined_once_contains(known: Seq<Seq<char>>, items: Seq<Seq<char>>, h: Seq<char>)
    ensures
        joined_once(known, items).contains(h) <==> known.contains(h) || items.contains(h),
    decreases items.len(),
{
    if items.len() > 0 {
        let d = items.drop_last();
        lemma_joined_once_contains(known, d, h);
        let j = joined_once(known, d);
        let x = items.last();
        assert(items =~= d.push(x));
        assert(d.push(x).contains(h) <==> d.contains(h) || h == x) by {
            lemma_push_contains(d, x, h);
        }
        lemma_push_contains(j, x, h);
    }
}

proof fn lemma_push_contains(s: Seq<Seq<char>>, x: Seq<char>, h: Seq<char>)
    ensures
        s.push(x).contains(h) <==> s.contains(h) || h == x,
{
    let t = s.push(x);
    assert(t[s.len() as int] == x);
    if s.contains(h) {
        let j = choose|j: int| 0 <= j < s.len() && s[j] == h;
        assert(t[j] == h);
    }
    if t.contains(h) && h != x {
        let j = choose|j: int| 0 <= j < t.len() && t[j] == h;
        assert(s[j] == h);
    }
}

proof fn lemma_non_empty_contains(s: Seq<Seq<char>>, h: Seq<char>)
    ensures
        non_empty_texts(s).contains(h) <==> s.contains(h) && h.len() > 0,
    decreases s.len(),
{
    if s.len() > 0 {
        let d = s.drop_last();
        lemma_non_empty_contains(d, h);
        assert(s =~= d.push(s.last()));
        lemma_push_contains(d, s.last(), h);
        lemma_push_contains(non_empty_texts(d), s.last(), h);
    }
}

/// What the entries of a cluster are for its hosts: they come in order, none twice and none empty;
/// the paths of each come in order and none twice; and their hosts are those of the cluster.
pub proof fn law_entries_match_hosts(
    domain: Option<String>,
    traefik: bool,
    ingresses: HostPaths,
    routes: HostPaths,
)
    ensures
        ({
            let es = entries_sorted(collected(domain, traefik, ingresses, routes));
            let hs = ingress_hosts(domain, traefik, hosts_of(ingresses), hosts_of(routes));
            &&& forall|i: int, j: int|
                0 <= i < j < es.len() ==> before((#[trigger] es[i]).0, (#[trigger] es[j]).0)
            &&& forall|i: int| 0 <= i < es.len() ==> (#[trigger] es[i]).0.len() > 0
            &&& forall|i: int, j: int, k: int|
                0 <= i < es.len() && 0 <= j < k < es[i].1.len() ==> before(
                    #[trigger] es[i].1[j],
                    #[trigger] es[i].1[k],
                )
            &&& forall|h: Seq<char>| #[trigger] hosts_of(es).contains(h) <==> hs.contains(h)
        }),
{
    let first = if traefik && domain is Some {
        with_path(Seq::empty(), dashboard(domain)->0, "/dashboard/"@)
    } else {
        Seq::empty()
    };
    let start = if traefik && domain is Some {
        seq![dashboard(domain)->0]
    } else {
        Seq::<Seq<char>>::empty()
    };
    let none: HostPaths = Seq::empty();
    assert(well_collected(none));
    reveal_strlit("traefik.");
    assert forall|h: Seq<char>| hosts_of(first).contains(h) <==> start.contains(h) by {
        if traefik && domain is Some {
            lemma_with_path(none, dashboard(domain)->0, "/dashboard/"@, h);
            assert(start[0] == dashboard(domain)->0);
        }
    }
    if traefik && domain is Some {
        lemma_with_path(none, dashboard(domain)->0, "/dashboard/"@, Seq::empty());
    }
    let middle = with_entries(first, ingresses);
    let all = collected(domain, traefik, ingresses, routes);
    lemma_with_entries(first, ingresses, Seq::empty());
    lemma_with_entries(middle, routes, Seq::empty());
    let es = entries_sorted(all);
    let hs = ingress_hosts(domain, traefik, hosts_of(ingresses), hosts_of(routes));
    let rows = Seq::new(all.len(), |i: int| paths_sorted(all[i]));
    let f = |e: (Seq<char>, Seq<Seq<char>>)| e.0;
    lemma_ranked_map(rows, f);
    assert(hosts_of(rows) =~= hosts_of(all));
    assert(hosts_of(es) == ranked(hosts_of(all)));
    assert(hosts_of(all).no_duplicates()) by {
        assert forall|i: int, j: int|
            0 <= i < all.len() && 0 <= j < all.len() && i != j implies hosts_of(all)[i] != hosts_of(
            all,
        )[j] by {
            if i < j {
                assert(all[i].0 != all[j].0);
            } else {
                assert(all[j].0 != all[i].0);
            }
        }
    }
    law_distinct_texts_are_increasing(hosts_of(all));
    law_sorting(rows);
    assert forall|i: int, j: int| 0 <= i < j < es.len() implies before(
        (#[trigger] es[i]).0,
        (#[trigger] es[j]).0,
    ) by {
        assert(hosts_of(es)[i] == es[i].0 && hosts_of(es)[j] == es[j].0);
    }
    assert forall|i: int| 0 <= i < es.len() implies (#[trigger] es[i]).0.len() > 0 && exists|k: int|
        0 <= k < all.len() && es[i] == paths_sorted(#[trigger] all[k]) by {
        assert(es.contains(es[i]));
        lemma_ranked_contains(rows, es[i]);
        let k = choose|k: int| 0 <= k < rows.len() && rows[k] == es[i];
        assert(es[i] == paths_sorted(all[k]));
    }
    assert forall|i: int, j: int, k: int|
        0 <= i < es.len() && 0 <= j < k < es[i].1.len() implies before(
        #[trigger] es[i].1[j],
        #[trigger] es[i].1[k],
    ) by {
        assert(es[i].0.len() > 0);
        let n = choose|n: int| 0 <= n < all.len() && es[i] == paths_sorted(#[trigger] all[n]);
        law_distinct_texts_are_increasing(all[n].1);
    }
    assert forall|h: Seq<char>| #[trigger] hosts_of(es).contains(h) <==> hs.contains(h) by {
        lemma_ranked_contains(hosts_of(all), h);
        lemma_with_entries(first, ingresses, h);
        lemma_with_entries(middle, routes, h);
        let inner = joined_once(start, non_empty_texts(hosts_of(ingresses)));
        lemma_non_empty_contains(hosts_of(ingresses), h);
        lemma_non_empty_contains(hosts_of(routes), h);
        lemma_joined_once_contains(start, non_empty_texts(hosts_of(ingresses)), h);
        lemma_joined_once_contains(inner, non_empty_texts(hosts_of(routes)), h);
        assert(hosts_of(first).contains(h) <==> start.contains(h));
    }
}

/// A host is missing exactly where it is asked for and the hosts file does not give it to this machine:
/// so nothing is missing only where every host is resolvable.
pub proof fn law_missing_hosts_are_those_not_known(
    hosts: Seq<Seq<char>>,
    known: Seq<Seq<char>>,
    h: Seq<char>,
)
    ensures
        missing_from(hosts, known).contains(h) <==> hosts.contains(h) && !known.contains(h),
        missing_from(hosts, known).len() == 0 ==> (hosts.contains(h) ==> known.contains(h)),
        missing_from(hosts, known).len() <= hosts.len(),
    decreases hosts.len(),
{
    if hosts.len() > 0 {
        let d = hosts.drop_last();
        law_missing_hosts_are_those_not_known(d, known, h);
        assert(hosts =~= d.push(hosts.last()));
        lemma_push_contains(d, hosts.last(), h);
        lemma_push_contains(missing_from(d, known), hosts.last(), h);
    }
    if missing_from(hosts, known).contains(h) {
        assert(missing_from(hosts, known).len() > 0);
    }
}

proof fn lemma_before_comment(w: Seq<Seq<char>>, h: Seq<char>)
    ensures
        before_comment(w).contains(h) <==> exists|k: int|
            0 <= k < w.len() && #[trigger] w[k] == h && forall|j: int|
                0 <= j <= k ==> !begins(#[trigger] w[j], "#"@),
    decreases w.len(),
{
    let r = w.skip(1);
    if w.len() > 0 && !begins(w[0], "#"@) {
        lemma_before_comment(r, h);
        let b = before_comment(w);
        assert(b == seq![w[0]] + before_comment(r));
        if b.contains(h) {
            let i = choose|i: int| 0 <= i < b.len() && b[i] == h;
            if i == 0 {
                assert(w[0] == h);
            } else {
                assert(before_comment(r)[i - 1] == h);
                let k = choose|k: int|
                    0 <= k < r.len() && #[trigger] r[k] == h && forall|j: int|
                        0 <= j <= k ==> !begins(#[trigger] r[j], "#"@);
                assert(w[k + 1] == h);
                assert forall|j: int| 0 <= j <= k + 1 implies !begins(#[trigger] w[j], "#"@) by {
                    if j > 0 {
                        assert(r[j - 1] == w[j]);
                    }
                }
            }
        }
        if exists|k: int|
            0 <= k < w.len() && #[trigger] w[k] == h && forall|j: int|
                0 <= j <= k ==> !begins(#[trigger] w[j], "#"@) {
            let k = choose|k: int|
                0 <= k < w.len() && #[trigger] w[k] == h && forall|j: int|
                    0 <= j <= k ==> !begins(#[trigger] w[j], "#"@);
            if k == 0 {
                assert(b[0] == h);
            } else {
                assert(r[k - 1] == h);
                assert forall|j: int| 0 <= j <= k - 1 implies !begins(#[trigger] r[j], "#"@) by {
                    assert(w[j + 1] == r[j]);
                }
                let i = choose|i: int| 0 <= i < before_comment(r).len() && before_comment(r)[i] == h;
                assert(b[i + 1] == h);
            }
        }
    } else if w.len() > 0 {
        assert(before_comment(w).len() == 0);
        if exists|k: int|
            0 <= k < w.len() && #[trigger] w[k] == h && forall|j: int|
                0 <= j <= k ==> !begins(#[trigger] w[j], "#"@) {
            assert(!begins(w[0], "#"@));
        }
    }
}

/// Whether a line gives a host to this machine: its first word is the address of this machine, the
/// host is a later word, and no comment begins before it.
pub open spec fn gives_host(line: Seq<char>, h: Seq<char>) -> bool {
    &&& words(line).len() > 1
    &&& words(line)[0] == "127.0.0.1"@
    &&& exists|k: int|
        1 <= k < words(line).len() && #[trigger] words(line)[k] == h && forall|j: int|
            1 <= j <= k ==> !begins(#[trigger] words(line)[j], "#"@)
}

proof fn lemma_gives_host(line: Seq<char>, h: Seq<char>)
    ensures
        line_hosts(line).contains(h) <==> gives_host(line, h),
{
    let w = words(line);
    let r = w.skip(1);
    lemma_before_comment(r, h);
    if w.len() >= 2 && w[0] == "127.0.0.1"@ {
        if line_hosts(line).contains(h) {
            let k = choose|k: int|
                0 <= k < r.len() && #[trigger] r[k] == h && forall|j: int|
                    0 <= j <= k ==> !begins(#[trigger] r[j], "#"@);
            assert(w[k + 1] == h);
            assert forall|j: int| 1 <= j <= k + 1 implies !begins(#[trigger] w[j], "#"@) by {
                assert(r[j - 1] == w[j]);
            }
        }
        if gives_host(line, h) {
            let k = choose|k: int|
                1 <= k < w.len() && #[trigger] w[k] == h && forall|j: int|
                    1 <= j <= k ==> !begins(#[trigger] w[j], "#"@);
            assert(r[k - 1] == h);
            assert forall|j: int| 0 <= j <= k - 1 implies !begins(#[trigger] r[j], "#"@) by {
                assert(w[j + 1] == r[j]);
            }
        }
    }
}

proof fn lemma_hosts_in_some_line(ls: Seq<Seq<char>>, h: Seq<char>)
    ensures
        hosts_in(ls).contains(h) ==> exists|i: int|
            0 <= i < ls.len() && line_hosts(#[trigger] ls[i]).contains(h),
    decreases ls.len(),
{
    if ls.len() > 0 && hosts_in(ls).contains(h) {
        let d = ls.drop_last();
        lemma_hosts_in_some_line(d, h);
        let k = choose|k: int| 0 <= k < hosts_in(ls).len() && hosts_in(ls)[k] == h;
        if k < hosts_in(d).len() {
            assert(hosts_in(d)[k] == h);
            let i = choose|i: int| 0 <= i < d.len() && line_hosts(#[trigger] d[i]).contains(h);
            assert(ls[i] == d[i]);
        } else {
            assert(line_hosts(ls.last())[k - hosts_in(d).len()] == h);
            assert(ls[ls.len() - 1] == ls.last());
        }
    }
}

/// A host is resolvable exactly where some line of the hosts file gives it to this machine.
pub proof fn law_resolvable_hosts_are_given(content: Seq<char>, h: Seq<char>)
    ensures
        resolvable(content).contains(h) <==> exists|i: int|
            0 <= i < lines(content).len() && gives_host(#[trigger] lines(content)[i], h),
{
    let ls = lines(content);
    lemma_hosts_in_some_line(ls, h);
    if resolvable(content).contains(h) {
        let i = choose|i: int| 0 <= i < ls.len() && line_hosts(#[trigger] ls[i]).contains(h);
        lemma_gives_host(ls[i], h);
        assert(gives_host(lines(content)[i], h));
    }
    if exists|i: int| 0 <= i < ls.len() && gives_host(#[trigger] ls[i], h) {
        let i = choose|i: int| 0 <= i < ls.len() && gives_host(#[trigger] ls[i], h);
        lemma_gives_host(ls[i], h);
        lemma_hosts_in_contains(ls, i, h);
    }
}

/// Answers are good where their status has two hundreds, doubtful where it has three or four, and bad
/// otherwise; so is no answer.
pub proof fn law_health_goes_by_hundreds(status: u16)
    ensures
        health_for(Some(status)) == IngressHealthStatus::Healthy <==> status / 100 == 2,
        health_for(Some(status)) == IngressHealthStatus::Warning <==> status / 100 == 3 || status
            / 100 == 4,
        health_for(Some(status)) != IngressHealthStatus::Unknown,
        health_for(None) == IngressHealthStatus::Error,
{
}

/// The endpoints to check are the combinations of a host and one of its paths, and no others.
pub proof fn law_endpoints_are_hosts_with_paths(
    entries: Seq<(Seq<char>, Seq<Seq<char>>)>,
    host: Seq<char>,
    path: Seq<char>,
)
    ensures
        all_endpoints(entries).contains((host, path)) <==> exists|i: int|
            0 <= i < entries.len() && (#[trigger] entries[i]).0 == host && entries[i].1.contains(
                path,
            ),
    decreases entries.len(),
{
    if entries.len() > 0 {
        let d = entries.drop_last();
        let e = entries.last();
        let (a, b) = (all_endpoints(d), host_endpoints(e.0, e.1));
        let all = all_endpoints(entries);
        law_endpoints_are_hosts_with_paths(d, host, path);
        assert(entries[entries.len() - 1] == e);
        if all.contains((host, path)) {
            let k = choose|k: int| 0 <= k < all.len() && all[k] == (host, path);
            if k < a.len() {
                assert(a[k] == (host, path));
                let i = choose|i: int|
                    0 <= i < d.len() && (#[trigger] d[i]).0 == host && d[i].1.contains(path);
                assert(entries[i] == d[i]);
            } else {
                assert(b[k - a.len()] == (host, path));
                assert(e.1[k - a.len()] == path);
            }
        }
        if exists|i: int|
            0 <= i < entries.len() && (#[trigger] entries[i]).0 == host && entries[i].1.contains(
                path,
            ) {
            let i = choose|i: int|
                0 <= i < entries.len() && (#[trigger] entries[i]).0 == host && entries[i].1.contains(
                    path,
                );
            if i < d.len() {
                assert(d[i] == entries[i]);
                let k = choose|k: int| 0 <= k < a.len() && a[k] == (host, path);
                assert(all[k] == (host, path));
            } else {
                let k = choose|k: int| 0 <= k < e.1.len() && e.1[k] == path;
                assert(b[k] == (host, path));
                assert(all[a.len() + k] == (host, path));
            }
        }
    }
}

/// The hosts of a cluster are those of its ingresses and routes that are not empty, and the dashboard
/// where Traefik is deployed and a domain is known; none comes twice.
pub proof fn law_hosts_of_the_cluster(
    domain: Option<String>,
    traefik: bool,
    ingresses: Seq<Seq<char>>,
    routes: Seq<Seq<char>>,
    h: Seq<char>,
)
    ensures
        ingress_hosts(domain, traefik, ingresses, routes).contains(h) <==> (traefik && (
        domain matches Some(d) && h == "traefik."@ + d@)) || (h.len() > 0 && (ingresses.contains(h)
            || routes.contains(h))),
        ingress_hosts(domain, traefik, ingresses, routes).no_duplicates(),
{
    let first = if traefik && domain is Some {
        seq![dashboard(domain)->0]
    } else {
        Seq::<Seq<char>>::empty()
    };
    let more = joined_once(first, non_empty_texts(ingresses));
    lemma_joined_once_contains(first, non_empty_texts(ingresses), h);
    lemma_joined_once_contains(more, non_empty_texts(routes), h);
    lemma_non_empty_contains(ingresses, h);
    lemma_non_empty_contains(routes, h);
    if traefik && domain is Some {
        assert(first[0] == dashboard(domain)->0);
    }
    lemma_joined_once_distinct(first, non_empty_texts(ingresses));
    lemma_joined_once_distinct(more, non_empty_texts(routes));
}

proof fn lemma_joined_once_distinct(known: Seq<Seq<char>>, items: Seq<Seq<char>>)
    requires
        known.no_duplicates(),
    ensures
        joined_once(known, items).no_duplicates(),
    decreases items.len(),
{
    if items.len() > 0 {
        lemma_joined_once_distinct(known, items.drop_last());
        lemma_with_text_distinct(joined_once(known, items.drop_last()), items.last());
    }
}

/// What is said of the hosts names each of them, in order.
pub proof fn law_all_hosts_are_shown(hosts: Seq<Seq<char>>, i: int)
    requires
        0 <= i < hosts.len(),
    ensures
        hosts_shown(hosts).len() == hosts.len() + 1,
        hosts_shown(hosts)[i + 1] == info("  "@ + hosts[i]),
{
}

/// The hosts of this program in a hosts file are the second words of the lines with its mark.
pub proof fn law_marked_lines_give_their_hosts(ls: Seq<Seq<char>>, x: Seq<char>)
    ensures
        marked_hosts(ls).contains(x) <==> exists|i: int|
            0 <= i < ls.len() && has_sub(#[trigger] ls[i], HOSTS_MARKER@) && words(ls[i]).len() >= 2
                && words(ls[i])[1] == x,
    decreases ls.len(),
{
    if ls.len() > 0 {
        let d = ls.drop_last();
        let r = marked_hosts(d);
        law_marked_lines_give_their_hosts(d, x);
        assert(ls[ls.len() - 1] == ls.last());
        if r.contains(x) {
            let i = choose|i: int|
                0 <= i < d.len() && has_sub(#[trigger] d[i], HOSTS_MARKER@) && words(d[i]).len() >= 2
                    && words(d[i])[1] == x;
            assert(ls[i] == d[i]);
        }
        if exists|i: int|
            0 <= i < ls.len() && has_sub(#[trigger] ls[i], HOSTS_MARKER@) && words(ls[i]).len() >= 2
                && words(ls[i])[1] == x {
            let i = choose|i: int|
                0 <= i < ls.len() && has_sub(#[trigger] ls[i], HOSTS_MARKER@) && words(ls[i]).len()
                    >= 2 && words(ls[i])[1] == x;
            if i < d.len() {
                assert(d[i] == ls[i]);
            }
        }
        if has_sub(ls.last(), HOSTS_MARKER@) && words(ls.last()).len() >= 2 {
            let y = words(ls.last())[1];
            let t = r.push(y);
            assert(t[r.len() as int] == y);
            if r.contains(x) {
                let j = choose|j: int| 0 <= j < r.len() && r[j] == x;
                assert(t[j] == x);
            }
            if t.contains(x) && x != y {
                let j = choose|j: int| 0 <= j < t.len() && t[j] == x;
                assert(r[j] == x);
            }
        }
    }
}

/// Success is told only of a file that was written; where it cannot be written, every entry is told.
pub proof fn law_updates_tell_what_came_of_them(plan: HostsPlan, r: HostsUpdateResult, i: int)
    ensures
        tells_success(update_said(plan, r)) <==> plan is Write && r is WrittenDirectly,
        plan is Write && r is ReadOnly && 0 <= i < r->entries@.len() ==> update_said(plan, r).contains(
            info(r->entries@[i]@),
        ),
        plan is NoHosts || plan is UpToDate ==> update_said(plan, r).len() == 1,
{
    let s = update_said(plan, r);
    if plan is Write && r is WrittenDirectly {
        assert(s[0].0 == OutputType::Success);
    }
    if plan is Write && r is ReadOnly && 0 <= i < r->entries@.len() {
        assert(s[i + 2] == info(r->entries@[i]@));
    }
    if s.len() > 0 {
        assert(s[0] == s[0]);
    }
}

} // verus!
