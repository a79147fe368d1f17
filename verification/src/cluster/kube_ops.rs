//! What the cluster says of its parts, and what is asked of it.

use vstd::prelude::*;
use crate::number::{decimal, u64_text};
use crate::pattern::{
    first_group, lemma_quote_from, lemma_quoted_first, lemma_quoted_none, quoted_at, quoted_from,
    HOST_PATTERN, PATH_PATTERN,
};
use crate::text::{
    begins, contains_char, ends, has_sub, in_lower, join, joined, lemma_has_in, lemma_pieces_nonempty,
    no_texts, occurs_at, opt_view, pad, padded, pieces, push_text, same, split, strip_prefix, to_lowercase, views,
};

verus! {

// ---------------------------------------------------------------------------
// Deployments
// ---------------------------------------------------------------------------

/// How many seconds pass between two questions about a deployment.
pub const POLL_SECS: u64 = 2;

/// Whether to ask about a deployment once more after so many seconds.
pub fn keep_polling(elapsed_secs: u64, timeout_secs: u64) -> (r: bool)
    ensures
        r == (elapsed_secs < timeout_secs),
{
    elapsed_secs < timeout_secs
}

/// Whether a deployment is ready, given how many of its replicas are. It is not, where nothing is
/// known.
pub fn deployment_ready(replicas: Option<i32>) -> (r: bool)
    ensures
        r == (replicas matches Some(n) && n > 0),
{
    match replicas {
        Some(n) => n > 0,
        None => false,
    }
}

/// The replicas of a deployment; those asked for are one unless it says otherwise.
#[derive(Debug, Clone, Copy)]
pub struct Rollout {
    pub desired: Option<i32>,
    pub ready: Option<i32>,
    pub updated: Option<i32>,
    pub available: Option<i32>,
}

/// A number, or what stands for it.
pub open spec fn number_or(n: Option<i32>, default: i32) -> i32 {
    match n {
        Some(x) => x,
        None => default,
    }
}

fn or(n: Option<i32>, default: i32) -> (r: i32)
    ensures
        r == number_or(n, default),
{
    match n {
        Some(x) => x,
        None => default,
    }
}

/// Whether a rollout is complete.
pub open spec fn rolled_out(d: Rollout) -> bool {
    let n = number_or(d.desired, 1);
    number_or(d.ready, 0) >= n && number_or(d.updated, 0) >= n && number_or(d.available, 0) >= n
}

/// Whether a rollout is complete.
pub fn rollout_complete(d: &Rollout) -> (r: bool)
    ensures
        r == rolled_out(*d),
{
    let n: i32 = or(d.desired, 1);
    or(d.ready, 0) >= n && or(d.updated, 0) >= n && or(d.available, 0) >= n
}

// ---------------------------------------------------------------------------
// Nodes
// ---------------------------------------------------------------------------

/// A node as the cluster describes it: conditions and addresses are pairs of a type and a value,
/// labels are given by their names.
#[derive(Debug, Clone)]
pub struct RawNode {
    pub name: Option<String>,
    pub conditions: Vec<(String, String)>,
    pub addresses: Vec<(String, String)>,
    pub labels: Vec<String>,
    pub kubelet_version: Option<String>,
}

/// A node.
#[derive(Debug, Clone)]
pub struct NodeInfo {
    pub name: String,
    pub status: String,
    pub roles: String,
    pub internal_ip: Option<String>,
    pub version: String,
}

/// What the names of labels for roles begin with.
pub const ROLE_PREFIX: &'static str = "node-role.kubernetes.io/";

/// The value of the first pair of a type.
pub open spec fn value_of(v: Seq<(String, String)>, t: Seq<char>) -> Option<Seq<char>> {
    crate::textmap::lookup(crate::cluster::docker::queries::pair_views(v), t)
}

/// The text, or the empty one.
pub open spec fn text_or_empty(o: Option<String>) -> Seq<char> {
    match o {
        Some(s) => s@,
        None => Seq::empty(),
    }
}

/// The status of a node with these conditions.
pub open spec fn node_status(conditions: Seq<(String, String)>) -> Seq<char> {
    match value_of(conditions, "Ready"@) {
        Some(s) => if s == "True"@ {
            "Ready"@
        } else {
            "NotReady"@
        },
        None => "Unknown"@,
    }
}

/// The roles among labels.
pub open spec fn roles_in(labels: Seq<Seq<char>>) -> Seq<Seq<char>>
    decreases labels.len(),
{
    if labels.len() == 0 {
        Seq::empty()
    } else if begins(labels.last(), ROLE_PREFIX@) {
        roles_in(labels.drop_last()).push(labels.last().skip(ROLE_PREFIX@.len() as int))
    } else {
        roles_in(labels.drop_last())
    }
}

/// Whether `r` describes the node `n`.
pub open spec fn describes_node(r: NodeInfo, n: RawNode) -> bool {
    &&& r.name@ == text_or_empty(n.name)
    &&& r.status@ == node_status(n.conditions@)
    &&& r.roles@ == joined(roles_in(views(n.labels@)), ","@)
    &&& opt_view(r.internal_ip) == value_of(n.addresses@, "InternalIP"@)
    &&& r.version@ == text_or_empty(n.kubelet_version)
}

fn or_empty(o: &Option<String>) -> (r: String)
    ensures
        r@ == text_or_empty(*o),
{
    match o {
        Some(s) => s.clone(),
        None => String::new(),
    }
}

fn roles_of(labels: &Vec<String>) -> (r: Vec<String>)
    ensures
        views(r@) == roles_in(views(labels@)),
{
    let mut out = no_texts();
    let ghost all = views(labels@);
    let mut i: usize = 0;
    assert(all.take(0) =~= Seq::<Seq<char>>::empty());
    while i < labels.len()
        invariant
            i <= labels@.len(),
            all == views(labels@),
            views(out@) == roles_in(all.take(i as int)),
        decreases labels@.len() - i,
    {
        assert(all.take(i + 1).drop_last() =~= all.take(i as int));
        assert(all.take(i + 1).last() == labels@[i as int]@);
        if let Some(role) = strip_prefix(labels[i].as_str(), ROLE_PREFIX) {
            push_text(&mut out, role.as_str());
        }
        i = i + 1;
    }
    assert(all.take(i as int) =~= all);
    out
}

/// A node, from what the cluster says of it.
pub fn node_info(n: &RawNode) -> (r: NodeInfo)
    ensures
        describes_node(r, *n),
{
    let status = match crate::cluster::docker::queries::find_pair(&n.conditions, "Ready") {
        Some(s) => if same(s.as_str(), "True") {
            "Ready"
        } else {
            "NotReady"
        },
        None => "Unknown",
    };
    NodeInfo {
        name: or_empty(&n.name),
        status: status.to_owned(),
        roles: join(&roles_of(&n.labels), ","),
        internal_ip: crate::cluster::docker::queries::find_pair(&n.addresses, "InternalIP"),
        version: or_empty(&n.kubelet_version),
    }
}

/// The nodes, from what the cluster says of them.
pub fn list_nodes(v: &Vec<RawNode>) -> (r: Vec<NodeInfo>)
    ensures
        r@.len() == v@.len(),
        forall|i: int| 0 <= i < v@.len() ==> describes_node(#[trigger] r@[i], v@[i]),
{
    let mut out: Vec<NodeInfo> = Vec::new();
    let mut i: usize = 0;
    while i < v.len()
        invariant
            i <= v@.len(),
            out@.len() == i,
            forall|j: int| 0 <= j < i ==> describes_node(#[trigger] out@[j], v@[j]),
        decreases v@.len() - i,
    {
        out.push(node_info(&v[i]));
        i = i + 1;
    }
    out
}

/// A row of the table of nodes.
pub open spec fn node_row(
    name: Seq<char>,
    status: Seq<char>,
    roles: Seq<char>,
    ip: Seq<char>,
    version: Seq<char>,
) -> Seq<char> {
    padded(name, 20) + " "@ + padded(status, 10) + " "@ + padded(roles, 15) + " "@ + padded(ip, 15)
        + " "@ + version
}

/// A row of the table of nodes.
pub fn row_of_node(name: &str, status: &str, roles: &str, ip: &str, version: &str) -> (r: String)
    ensures
        r@ == node_row(name@, status@, roles@, ip@, version@),
{
    let mut s = pad(name, 20);
    s.append(" ");
    s.append(pad(status, 10).as_str());
    s.append(" ");
    s.append(pad(roles, 15).as_str());
    s.append(" ");
    s.append(pad(ip, 15).as_str());
    s.append(" ");
    s.append(version);
    s
}

impl NodeInfo {
    /// The row of the table of nodes for this node.
    pub open spec fn wide(&self) -> Seq<char> {
        node_row(
            self.name@,
            self.status@,
            if self.roles@.len() == 0 {
                "<none>"@
            } else {
                self.roles@
            },
            match self.internal_ip {
                Some(ip) => ip@,
                None => "<none>"@,
            },
            self.version@,
        )
    }

    /// The row of the table of nodes for this node.
    pub fn to_wide_string(&self) -> (r: String)
        ensures
            r@ == self.wide(),
    {
        let roles = if self.roles.as_str().is_empty() {
            "<none>"
        } else {
            self.roles.as_str()
        };
        let ip = match &self.internal_ip {
            Some(ip) => ip.as_str(),
            None => "<none>",
        };
        row_of_node(self.name.as_str(), self.status.as_str(), roles, ip, self.version.as_str())
    }
}

// ---------------------------------------------------------------------------
// Pods
// ---------------------------------------------------------------------------

/// A pod as the cluster describes it: `ready` says of each container with a status whether it is
/// ready.
#[derive(Debug, Clone)]
pub struct RawPod {
    pub name: Option<String>,
    pub phase: Option<String>,
    pub ready: Vec<bool>,
    pub containers: usize,
}

/// A pod.
#[derive(Debug, Clone)]
pub struct PodInfo {
    pub name: String,
    pub status: String,
    pub ready: String,
}

/// How many are set.
pub open spec fn count_set(v: Seq<bool>) -> nat
    decreases v.len(),
{
    if v.len() == 0 {
        0
    } else if v.last() {
        count_set(v.drop_last()) + 1
    } else {
        count_set(v.drop_last())
    }
}

/// Whether `r` describes the pod `p`.
pub open spec fn describes_pod(r: PodInfo, p: RawPod) -> bool {
    &&& r.name@ == text_or_empty(p.name)
    &&& r.status@ == match p.phase {
        Some(s) => s@,
        None => "Unknown"@,
    }
    &&& r.ready@ == decimal(count_set(p.ready@)) + "/"@ + decimal(p.containers as nat)
}

fn count(v: &Vec<bool>) -> (r: usize)
    ensures
        r == count_set(v@),
        r <= v@.len(),
{
    let mut n: usize = 0;
    let mut i: usize = 0;
    assert(v@.take(0) =~= Seq::<bool>::empty());
    while i < v.len()
        invariant
            i <= v@.len(),
            n <= i,
            n == count_set(v@.take(i as int)),
        decreases v@.len() - i,
    {
        assert(v@.take(i + 1).drop_last() =~= v@.take(i as int));
        if v[i] {
            n = n + 1;
        }
        i = i + 1;
    }
    assert(v@.take(i as int) =~= v@);
    n
}

/// A pod, from what the cluster says of it.
pub fn pod_info(p: &RawPod) -> (r: PodInfo)
    ensures
        describes_pod(r, *p),
{
    let mut ready = u64_text(count(&p.ready) as u64);
    ready.append("/");
    ready.append(u64_text(p.containers as u64).as_str());
    PodInfo {
        name: or_empty(&p.name),
        status: match &p.phase {
            Some(s) => s.clone(),
            None => "Unknown".to_owned(),
        },
        ready,
    }
}

/// The pods, from what the cluster says of them.
pub fn list_pods(v: &Vec<RawPod>) -> (r: Vec<PodInfo>)
    ensures
        r@.len() == v@.len(),
        forall|i: int| 0 <= i < v@.len() ==> describes_pod(#[trigger] r@[i], v@[i]),
{
    let mut out: Vec<PodInfo> = Vec::new();
    let mut i: usize = 0;
    while i < v.len()
        invariant
            i <= v@.len(),
            out@.len() == i,
            forall|j: int| 0 <= j < i ==> describes_pod(#[trigger] out@[j], v@[j]),
        decreases v@.len() - i,
    {
        out.push(pod_info(&v[i]));
        i = i + 1;
    }
    out
}

/// A row of the table of pods.
pub open spec fn pod_row(name: Seq<char>, ready: Seq<char>, status: Seq<char>) -> Seq<char> {
    padded(name, 50) + " "@ + padded(ready, 10) + " "@ + status
}

/// A row of the table of pods.
pub fn row_of_pod(name: &str, ready: &str, status: &str) -> (r: String)
    ensures
        r@ == pod_row(name@, ready@, status@),
{
    let mut s = pad(name, 50);
    s.append(" ");
    s.append(pad(ready, 10).as_str());
    s.append(" ");
    s.append(status);
    s
}

impl PodInfo {
    /// The row of the table of pods for this pod.
    pub fn to_string_line(&self) -> (r: String)
        ensures
            r@ == pod_row(self.name@, self.ready@, self.status@),
    {
        row_of_pod(self.name.as_str(), self.ready.as_str(), self.status.as_str())
    }
}

/// A container of a pod.
#[derive(Debug)]
pub struct ContainerInfo {
    pub image: String,
    pub ports: Vec<u16>,
}

/// A pod with its containers.
#[derive(Debug)]
pub struct PodFullInfo {
    pub name: String,
    pub namespace: String,
    pub containers: Vec<ContainerInfo>,
}

/// A container as the cluster describes it.
#[derive(Debug)]
pub struct RawContainer {
    pub image: Option<String>,
    pub ports: Vec<i32>,
}

/// A pod with its containers, as the cluster describes it.
#[derive(Debug)]
pub struct RawPodFull {
    pub name: Option<String>,
    pub namespace: Option<String>,
    pub containers: Vec<RawContainer>,
}

/// The numbers that are ports.
pub open spec fn ports_in(v: Seq<i32>) -> Seq<u16>
    decreases v.len(),
{
    if v.len() == 0 {
        Seq::empty()
    } else if 0 <= v.last() <= 65535 {
        ports_in(v.drop_last()).push(v.last() as u16)
    } else {
        ports_in(v.drop_last())
    }
}

/// Whether `r` describes the container `c`.
pub open spec fn describes_container(r: ContainerInfo, c: RawContainer) -> bool {
    r.image@ == text_or_empty(c.image) && r.ports@ == ports_in(c.ports@)
}

/// Whether `r` describes the pod `p` with its containers.
pub open spec fn describes_full_pod(r: PodFullInfo, p: RawPodFull) -> bool {
    &&& r.name@ == text_or_empty(p.name)
    &&& r.namespace@ == text_or_empty(p.namespace)
    &&& r.containers@.len() == p.containers@.len()
    &&& forall|i: int|
        0 <= i < r.containers@.len() ==> describes_container(
            #[trigger] r.containers@[i],
            p.containers@[i],
        )
}

fn ports_of(v: &Vec<i32>) -> (r: Vec<u16>)
    ensures
        r@ == ports_in(v@),
{
    let mut out: Vec<u16> = Vec::new();
    let mut i: usize = 0;
    assert(v@.take(0) =~= Seq::<i32>::empty());
    while i < v.len()
        invariant
            i <= v@.len(),
            out@ == ports_in(v@.take(i as int)),
        decreases v@.len() - i,
    {
        assert(v@.take(i + 1).drop_last() =~= v@.take(i as int));
        assert(v@.take(i + 1).last() == v@[i as int]);
        let p: i32 = v[i];
        if 0 <= p && p <= 65535 {
            out.push(p as u16);
        }
        i = i + 1;
    }
    assert(v@.take(i as int) =~= v@);
    out
}

fn full_pod(p: &RawPodFull) -> (r: PodFullInfo)
    ensures
        describes_full_pod(r, *p),
{
    let mut containers: Vec<ContainerInfo> = Vec::new();
    let mut i: usize = 0;
    while i < p.containers.len()
        invariant
            i <= p.containers@.len(),
            containers@.len() == i,
            forall|j: int|
                0 <= j < i ==> describes_container(
                    #[trigger] containers@[j],
                    p.containers@[j],
                ),
        decreases p.containers@.len() - i,
    {
        let c = &p.containers[i];
        containers.push(ContainerInfo { image: or_empty(&c.image), ports: ports_of(&c.ports) });
        i = i + 1;
    }
    PodFullInfo { name: or_empty(&p.name), namespace: or_empty(&p.namespace), containers }
}

/// The pods with their containers, from what the cluster says of them.
pub fn list_all_pods(v: &Vec<RawPodFull>) -> (r: Vec<PodFullInfo>)
    ensures
        r@.len() == v@.len(),
        forall|i: int| 0 <= i < v@.len() ==> describes_full_pod(#[trigger] r@[i], v@[i]),
{
    let mut out: Vec<PodFullInfo> = Vec::new();
    let mut i: usize = 0;
    while i < v.len()
        invariant
            i <= v@.len(),
            out@.len() == i,
            forall|j: int| 0 <= j < i ==> describes_full_pod(#[trigger] out@[j], v@[j]),
        decreases v@.len() - i,
    {
        out.push(full_pod(&v[i]));
        i = i + 1;
    }
    out
}

// ---------------------------------------------------------------------------
// Ingresses
// ---------------------------------------------------------------------------

/// A host of an ingress with its paths.
#[derive(Debug)]
pub struct IngressInfo {
    pub host: String,
    pub paths: Vec<String>,
}

/// A host of an ingress route with a path.
#[derive(Debug, Clone)]
pub struct IngressRouteInfo {
    pub host: String,
    pub path: String,
}

/// A rule of an ingress as the cluster describes it. Without a list of paths it is for all.
#[derive(Debug)]
pub struct RawRule {
    pub host: Option<String>,
    pub paths: Option<Vec<Option<String>>>,
}

/// A host with its paths, as a value.
pub type HostView = (Seq<char>, Seq<Seq<char>>);

/// Hosts with their paths, as values.
pub open spec fn host_views(v: Seq<IngressInfo>) -> Seq<HostView> {
    Seq::new(v.len(), |i: int| (v[i].host@, views(v[i].paths@)))
}

/// The path that an optional one stands for.
pub open spec fn path_or_root(p: Option<String>) -> Seq<char> {
    match p {
        Some(s) => s@,
        None => "/"@,
    }
}

/// The paths of a rule.
pub open spec fn rule_paths(paths: Option<Vec<Option<String>>>) -> Seq<Seq<char>> {
    match paths {
        Some(v) => Seq::new(v@.len(), |i: int| path_or_root(v@[i])),
        None => Seq::<Seq<char>>::empty().push("/"@),
    }
}

/// The hosts of rules; rules without one are left out.
pub open spec fn rule_hosts(rules: Seq<RawRule>) -> Seq<HostView>
    decreases rules.len(),
{
    if rules.len() == 0 {
        Seq::empty()
    } else {
        let before = rule_hosts(rules.drop_last());
        let host = text_or_empty(rules.last().host);
        if host.len() == 0 {
            before
        } else {
            before.push((host, rule_paths(rules.last().paths)))
        }
    }
}

fn paths_of(paths: &Option<Vec<Option<String>>>) -> (r: Vec<String>)
    ensures
        views(r@) == rule_paths(*paths),
{
    let mut out = no_texts();
    match paths {
        None => push_text(&mut out, "/"),
        Some(v) => {
            let ghost all = rule_paths(*paths);
            let mut i: usize = 0;
            assert(all.take(0) =~= Seq::<Seq<char>>::empty());
            while i < v.len()
                invariant
                    i <= v@.len(),
                    *paths == Some(*v),
                    all == rule_paths(*paths),
                    views(out@) == all.take(i as int),
                decreases v@.len() - i,
            {
                match &v[i] {
                    Some(s) => push_text(&mut out, s.as_str()),
                    None => push_text(&mut out, "/"),
                }
                assert(all.take(i + 1) =~= all.take(i as int).push(all[i as int]));
                i = i + 1;
            }
            assert(all.take(i as int) =~= all);
        },
    }
    out
}

/// The hosts of ingresses with their paths, given all rules.
pub fn list_ingresses(rules: &Vec<RawRule>) -> (r: Vec<IngressInfo>)
    ensures
        host_views(r@) == rule_hosts(rules@),
{
    let mut out: Vec<IngressInfo> = Vec::new();
    let mut i: usize = 0;
    assert(rules@.take(0) =~= Seq::<RawRule>::empty());
    assert(host_views(out@) =~= Seq::<HostView>::empty());
    while i < rules.len()
        invariant
            i <= rules@.len(),
            host_views(out@) == rule_hosts(rules@.take(i as int)),
        decreases rules@.len() - i,
    {
        assert(rules@.take(i + 1).drop_last() =~= rules@.take(i as int));
        assert(rules@.take(i + 1).last() == rules@[i as int]);
        let host = or_empty(&rules[i].host);
        if !host.as_str().is_empty() {
            let ghost before = host_views(out@);
            let e = IngressInfo { host, paths: paths_of(&rules[i].paths) };
            let ghost row = (e.host@, views(e.paths@));
            out.push(e);
            assert(host_views(out@) =~= before.push(row));
        }
        i = i + 1;
    }
    assert(rules@.take(i as int) =~= rules@);
    out
}

/// The route that a rule stands for, given the host and the path in it; none without a host.
pub open spec fn route_for(host: Option<Seq<char>>, path: Option<Seq<char>>) -> Option<
    (Seq<char>, Seq<char>),
> {
    match host {
        Some(h) => Some(
            (
                h,
                match path {
                    Some(p) => p,
                    None => "/"@,
                },
            ),
        ),
        None => None,
    }
}

/// The route that a rule stands for.
pub open spec fn rule_route(rule: Seq<char>) -> Option<(Seq<char>, Seq<char>)> {
    route_for(quoted_from(rule, "Host(`"@, 0), quoted_from(rule, "PathPrefix(`"@, 0))
}

/// The routes that rules stand for.
pub open spec fn rule_routes(rules: Seq<Seq<char>>) -> Seq<(Seq<char>, Seq<char>)>
    decreases rules.len(),
{
    if rules.len() == 0 {
        Seq::empty()
    } else {
        match rule_route(rules.last()) {
            Some(r) => rule_routes(rules.drop_last()).push(r),
            None => rule_routes(rules.drop_last()),
        }
    }
}

/// Routes, as values.
pub open spec fn route_views(v: Seq<IngressRouteInfo>) -> Seq<(Seq<char>, Seq<char>)> {
    Seq::new(v.len(), |i: int| (v[i].host@, v[i].path@))
}

/// The route that a rule stands for, given the host and the path in it.
pub fn route_of(host: Option<String>, path: Option<String>) -> (r: Option<IngressRouteInfo>)
    ensures
        match r {
            Some(i) => route_for(opt_view(host), opt_view(path)) == Some((i.host@, i.path@)),
            None => route_for(opt_view(host), opt_view(path)) is None,
        },
{
    match host {
        Some(h) => Some(
            IngressRouteInfo {
                host: h,
                path: match path {
                    Some(p) => p,
                    None => "/".to_owned(),
                },
            },
        ),
        None => None,
    }
}

/// A rule for a host stands for all its paths, and a rule for a host and a path for that path.
pub proof fn law_rules_read_back(host: Seq<char>, path: Seq<char>)
    requires
        host.len() > 0,
        path.len() > 0,
        !host.contains('`') && !host.contains('('),
        !path.contains('`'),
    ensures
        rule_route("Host(`"@ + host + "`)"@) == Some((host, "/"@)),
        rule_route("Host(`"@ + host + "`) && PathPrefix(`"@ + path + "`)"@) == Some((host, path)),
{
    let h = "Host(`"@;
    let x = "PathPrefix(`"@;
    reveal_strlit("Host(`");
    reveal_strlit("PathPrefix(`");
    reveal_strlit("`)");
    reveal_strlit("`) && PathPrefix(`");
    assert(forall|k: int| 0 <= k < host.len() ==> host.contains(#[trigger] host[k]));
    assert(forall|k: int| 0 <= k < path.len() ==> path.contains(#[trigger] path[k]));
    let s = h + host + "`)"@;
    let b: int = 6 + host.len() as int;
    assert(s.subrange(0, 6) =~= h);
    lemma_quote_from(s, 6, b);
    assert(s.subrange(6, b) =~= host);
    lemma_quoted_first(s, h, 0, 0);
    assert forall|j: int| 0 <= j < s.len() implies #[trigger] quoted_at(s, x, j) is None by {
        if occurs_at(s, x, j) {
            assert(s.subrange(j, j + 12)[10] == s[j + 10]);
            assert(x[10] == '(');
        }
    }
    lemma_quoted_none(s, x, 0);

    let t = h + host + "`) && PathPrefix(`"@ + path + "`)"@;
    assert(t.subrange(0, 6) =~= h);
    lemma_quote_from(t, 6, b);
    assert(t.subrange(6, b) =~= host);
    lemma_quoted_first(t, h, 0, 0);
    let k: int = 12 + host.len() as int;
    assert(t.subrange(k, k + 12) =~= x);
    lemma_quote_from(t, k + 12, k + 12 + path.len() as int);
    assert(t.subrange(k + 12, k + 12 + path.len() as int) =~= path);
    assert forall|j: int| 0 <= j < k implies #[trigger] quoted_at(t, x, j) is None by {
        if occurs_at(t, x, j) {
            assert(t.subrange(j, j + 12)[10] == t[j + 10]);
            assert(x[10] == '(');
        }
    }
    lemma_quoted_first(t, x, 0, k);
}

/// The routes that the rules of ingress routes stand for.
pub fn list_ingressroutes(rules: &Vec<String>) -> (r: Vec<IngressRouteInfo>)
    ensures
        route_views(r@) == rule_routes(views(rules@)),
{
    let mut out: Vec<IngressRouteInfo> = Vec::new();
    let ghost all = views(rules@);
    let mut i: usize = 0;
    assert(all.take(0) =~= Seq::<Seq<char>>::empty());
    assert(route_views(out@) =~= Seq::<(Seq<char>, Seq<char>)>::empty());
    while i < rules.len()
        invariant
            i <= rules@.len(),
            all == views(rules@),
            route_views(out@) == rule_routes(all.take(i as int)),
        decreases rules@.len() - i,
    {
        assert(all.take(i + 1).drop_last() =~= all.take(i as int));
        assert(all.take(i + 1).last() == rules@[i as int]@);
        let rule = rules[i].as_str();
        if let Some(route) = route_of(
            first_group(HOST_PATTERN, rule),
            first_group(PATH_PATTERN, rule),
        ) {
            let ghost before = route_views(out@);
            let ghost row = (route.host@, route.path@);
            out.push(route);
            assert(route_views(out@) =~= before.push(row));
        }
        i = i + 1;
    }
    assert(all.take(i as int) =~= all);
    out
}

// ---------------------------------------------------------------------------
// Resources
// ---------------------------------------------------------------------------

/// How the cluster names a kind of resource.
#[derive(Debug, Clone)]
pub struct ResourceName {
    pub group: String,
    pub version: String,
    pub kind: String,
    pub api_version: String,
    pub plural: String,
}

/// A resource to apply.
#[derive(Debug, Clone)]
pub struct ApplyTarget {
    pub resource: ResourceName,
    pub name: String,
    pub namespace: String,
    /// Whether it belongs to a namespace.
    pub namespaced: bool,
}

/// Group and version in a version of an interface such as `apps/v1`; the group is empty in one
/// such as `v1`.
pub open spec fn group_and_version(api_version: Seq<char>) -> (Seq<char>, Seq<char>) {
    if api_version.contains('/') {
        (pieces(api_version, '/')[0], pieces(api_version, '/')[1])
    } else {
        (Seq::empty(), api_version)
    }
}

/// Whether `r` names the kind of resource, given the kind in lower case.
pub open spec fn names_resource(
    r: ResourceName,
    api_version: Seq<char>,
    kind: Seq<char>,
    small: Seq<char>,
) -> bool {
    &&& (r.group@, r.version@) == group_and_version(api_version)
    &&& r.kind@ == kind
    &&& r.api_version@ == api_version
    &&& r.plural@ == small + "s"@
}

proof fn lemma_two_pieces(s: Seq<char>, c: char)
    requires
        s.contains(c),
    ensures
        pieces(s, c).len() >= 2,
    decreases s.len(),
{
    let d = s.drop_last();
    lemma_pieces_nonempty(d, c);
    if s.last() != c {
        let i = choose|i: int| 0 <= i < s.len() && s[i] == c;
        assert(d[i] == c);
        lemma_two_pieces(d, c);
    }
}

/// The name of a kind of resource, given the kind in lower case.
pub fn resource_named(api_version: &str, kind: &str, small: &str) -> (r: ResourceName)
    ensures
        names_resource(r, api_version@, kind@, small@),
{
    let mut plural = small.to_owned();
    plural.append("s");
    if contains_char(api_version, '/') {
        let parts = split(api_version, '/');
        proof {
            lemma_two_pieces(api_version@, '/');
        }
        assert(views(parts@).len() == parts@.len());
        assert(views(parts@)[0] == parts@[0]@);
        assert(views(parts@)[1] == parts@[1]@);
        ResourceName {
            group: parts[0].clone(),
            version: parts[1].clone(),
            kind: kind.to_owned(),
            api_version: api_version.to_owned(),
            plural,
        }
    } else {
        let group = String::new();
        assert(group@ =~= Seq::<char>::empty());
        ResourceName {
            group,
            version: api_version.to_owned(),
            kind: kind.to_owned(),
            api_version: api_version.to_owned(),
            plural,
        }
    }
}

/// The name of a kind of resource.
pub fn resource_name(api_version: &str, kind: &str) -> (r: ResourceName)
    ensures
        names_resource(r, api_version@, kind@, in_lower(kind@)),
{
    resource_named(api_version, kind, to_lowercase(kind).as_str())
}

/// The text under a key at the top of a YAML document: an error where it is no such document,
/// nothing where there is no text under the key.
pub uninterp spec fn yaml_top(doc: Seq<char>, key: Seq<char>) -> Result<
    Option<Seq<char>>,
    Seq<char>,
>;

/// The text under a key of what stands under an outer key of a YAML document: nothing at all where
/// the outer key is missing.
pub uninterp spec fn yaml_inner(doc: Seq<char>, outer: Seq<char>, key: Seq<char>) -> Result<
    Option<Option<Seq<char>>>,
    Seq<char>,
>;

/// The value of a result of reading a document.
pub open spec fn read_view(r: Result<Option<String>, String>) -> Result<
    Option<Seq<char>>,
    Seq<char>,
> {
    match r {
        Ok(o) => Ok(opt_view(o)),
        Err(e) => Err(e@),
    }
}

/// The value of a result of reading deeper in a document.
pub open spec fn inner_view(r: Result<Option<Option<String>>, String>) -> Result<
    Option<Option<Seq<char>>>,
    Seq<char>,
> {
    match r {
        Ok(Some(o)) => Ok(Some(opt_view(o))),
        Ok(None) => Ok(None),
        Err(e) => Err(e@),
    }
}

/// Calls `serde_yaml::from_str` for a `Value`, then `Value::get` and `Value::as_str`. The result is
/// a function of document and key.
#[verifier::external_body]
fn read_yaml(doc: &str, key: &str) -> (r: Result<Option<String>, String>)
    ensures
        read_view(r) == yaml_top(doc@, key@),
{
    match serde_yaml::from_str::<serde_yaml::Value>(doc) {
        Ok(v) => Ok(v.get(key).and_then(|x| x.as_str()).map(str::to_owned)),
        Err(e) => Err(e.to_string()),
    }
}

/// Calls `serde_yaml::from_str` for a `Value`, then `Value::get` twice and `Value::as_str`. The
/// result is a function of document and keys.
#[verifier::external_body]
fn read_inner_yaml(doc: &str, outer: &str, key: &str) -> (r: Result<Option<Option<String>>, String>)
    ensures
        inner_view(r) == yaml_inner(doc@, outer@, key@),
{
    match serde_yaml::from_str::<serde_yaml::Value>(doc) {
        Ok(v) => Ok(v.get(outer).map(|m| m.get(key).and_then(|x| x.as_str()).map(str::to_owned))),
        Err(e) => Err(e.to_string()),
    }
}

/// What a document says of the resource in it.
#[derive(Debug, Clone)]
pub struct DocumentHead {
    pub api_version: Option<String>,
    pub kind: Option<String>,
    /// Name and namespace, where there are metadata.
    pub metadata: Option<(Option<String>, Option<String>)>,
}

/// The complaint about a document, where it lacks something.
pub open spec fn lacking(h: DocumentHead) -> Option<Seq<char>> {
    if h.api_version is None {
        Some("Missing apiVersion"@)
    } else if h.kind is None {
        Some("Missing kind"@)
    } else {
        match h.metadata {
            None => Some("Missing metadata"@),
            Some(m) => if m.0 is None {
                Some("Missing metadata.name"@)
            } else {
                None
            },
        }
    }
}

/// The namespace that a document gives, or the usual one.
pub open spec fn namespace_in(h: DocumentHead) -> Seq<char> {
    match h.metadata {
        Some((_, Some(n))) => n@,
        _ => "default"@,
    }
}

/// Whether `t` is the resource in a document, given its kind in lower case.
pub open spec fn targets(t: ApplyTarget, h: DocumentHead, small: Seq<char>) -> bool {
    &&& h.api_version is Some && h.kind is Some && h.metadata is Some
    &&& names_resource(t.resource, h.api_version->0@, h.kind->0@, small)
    &&& opt_view((h.metadata->0).0) == Some(t.name@)
    &&& t.namespace@ == namespace_in(h)
    &&& t.namespaced == !(namespace_in(h) == "default"@ && group_and_version(
        h.api_version->0@,
    ).0.len() == 0)
}

/// The resource in a document, given its kind in lower case.
pub fn target_of(h: &DocumentHead, small: &str) -> (r: Result<ApplyTarget, String>)
    ensures
        match r {
            Ok(t) => lacking(*h) is None && targets(t, *h, small@),
            Err(e) => lacking(*h) == Some(e@),
        },
{
    let api_version = match &h.api_version {
        Some(v) => v,
        None => {
            return Err("Missing apiVersion".to_owned());
        },
    };
    let kind = match &h.kind {
        Some(k) => k,
        None => {
            return Err("Missing kind".to_owned());
        },
    };
    let (name, namespace) = match &h.metadata {
        Some((n, s)) => (n, s),
        None => {
            return Err("Missing metadata".to_owned());
        },
    };
    let name = match name {
        Some(n) => n,
        None => {
            return Err("Missing metadata.name".to_owned());
        },
    };
    let space = match namespace {
        Some(n) => n.clone(),
        None => "default".to_owned(),
    };
    let resource = resource_named(api_version.as_str(), kind.as_str(), small);
    let namespaced = !(same(space.as_str(), "default") && resource.group.as_str().is_empty());
    Ok(ApplyTarget { resource, name: name.clone(), namespace: space, namespaced })
}

/// What a document says of the resource in it: an error where it cannot be read.
pub open spec fn head_in(doc: Seq<char>, r: Result<DocumentHead, String>) -> bool {
    match r {
        Err(e) => yaml_top(doc, "apiVersion"@) == Err::<Option<Seq<char>>, Seq<char>>(e@) || yaml_top(
            doc,
            "kind"@,
        ) == Err::<Option<Seq<char>>, Seq<char>>(e@) || yaml_inner(doc, "metadata"@, "name"@)
            == Err::<Option<Option<Seq<char>>>, Seq<char>>(e@) || yaml_inner(
            doc,
            "metadata"@,
            "namespace"@,
        ) == Err::<Option<Option<Seq<char>>>, Seq<char>>(e@),
        Ok(h) => {
            &&& yaml_top(doc, "apiVersion"@) == Ok::<Option<Seq<char>>, Seq<char>>(
                opt_view(h.api_version),
            )
            &&& yaml_top(doc, "kind"@) == Ok::<Option<Seq<char>>, Seq<char>>(opt_view(h.kind))
            &&& match (
                yaml_inner(doc, "metadata"@, "name"@),
                yaml_inner(doc, "metadata"@, "namespace"@),
            ) {
                (Ok(Some(n)), Ok(Some(s))) => h.metadata matches Some(m) && opt_view(m.0) == n
                    && opt_view(m.1) == s,
                (Ok(_), Ok(_)) => h.metadata is None,
                _ => false,
            }
        },
    }
}

/// What a document says of the resource in it.
pub fn read_head(doc: &str) -> (r: Result<DocumentHead, String>)
    ensures
        head_in(doc@, r),
{
    let api_version = match read_yaml(doc, "apiVersion") {
        Ok(v) => v,
        Err(e) => {
            return Err(e);
        },
    };
    let kind = match read_yaml(doc, "kind") {
        Ok(v) => v,
        Err(e) => {
            return Err(e);
        },
    };
    let name = match read_inner_yaml(doc, "metadata", "name") {
        Ok(v) => v,
        Err(e) => {
            return Err(e);
        },
    };
    let namespace = match read_inner_yaml(doc, "metadata", "namespace") {
        Ok(v) => v,
        Err(e) => {
            return Err(e);
        },
    };
    let metadata = match (name, namespace) {
        (Some(n), Some(s)) => Some((n, s)),
        _ => None,
    };
    Ok(DocumentHead { api_version, kind, metadata })
}

/// The resource in a document.
pub fn apply_yaml(doc: &str) -> (r: Result<ApplyTarget, String>)
    ensures
        exists|h: Result<DocumentHead, String>| #[trigger] head_in(doc@, h) && match h {
            Err(e) => r matches Err(f) && f@ == e@,
            Ok(d) => match r {
                Ok(t) => lacking(d) is None && targets(t, d, in_lower(d.kind->0@)),
                Err(e) => lacking(d) == Some(e@),
            },
        },
{
    let h = read_head(doc);
    let ghost seen = h;
    match h {
        Err(e) => {
            assert(head_in(doc@, seen));
            Err(e)
        },
        Ok(d) => {
            assert(head_in(doc@, seen));
            let small = match &d.kind {
                Some(k) => to_lowercase(k.as_str()),
                None => String::new(),
            };
            target_of(&d, small.as_str())
        },
    }
}

/// What to do about a resource after an attempt to change it.
#[derive(Debug, Clone, Copy, PartialEq, Eq, Structural)]
pub enum ApplyNext {
    Applied,
    /// It is not there: create it.
    Create,
    Failed,
}

/// What to do about a resource after an attempt to change it, which may have failed with a code.
pub fn after_patch(ok: bool, code: Option<u16>) -> (r: ApplyNext)
    ensures
        r is Applied <==> ok,
        r is Create <==> !ok && code == Some(404u16),
        r == if ok {
            ApplyNext::Applied
        } else if code == Some(404u16) {
            ApplyNext::Create
        } else {
            ApplyNext::Failed
        },
{
    if ok {
        return ApplyNext::Applied;
    }
    match code {
        Some(c) => if c == 404 {
            ApplyNext::Create
        } else {
            ApplyNext::Failed
        },
        None => ApplyNext::Failed,
    }
}

/// What is said of the version of the cluster.
pub fn get_version(major: &str, minor: &str) -> (r: String)
    ensures
        r@ == "Server Version: v"@ + major@ + "."@ + minor@,
{
    let mut s = "Server Version: v".to_owned();
    s.append(major);
    s.append(".");
    s.append(minor);
    s
}

// ---------------------------------------------------------------------------
// Access
// ---------------------------------------------------------------------------

/// The names in a configuration for access to clusters.
#[derive(Debug)]
pub struct AccessNames {
    pub clusters: Vec<String>,
    pub contexts: Vec<String>,
    pub users: Vec<String>,
    pub current_context: Option<String>,
}

/// The names other than `name`, in order.
pub open spec fn others(v: Seq<Seq<char>>, name: Seq<char>) -> Seq<Seq<char>>
    decreases v.len(),
{
    if v.len() == 0 {
        Seq::empty()
    } else if v.last() == name {
        others(v.drop_last(), name)
    } else {
        others(v.drop_last(), name).push(v.last())
    }
}

/// The context in use once one has been removed: the first that is left, where it was that one.
pub open spec fn context_left(
    current: Option<Seq<char>>,
    removed: Seq<char>,
    left: Seq<Seq<char>>,
) -> Option<Seq<char>> {
    if current == Some(removed) {
        if left.len() > 0 {
            Some(left[0])
        } else {
            None
        }
    } else {
        current
    }
}

fn without_name(v: &Vec<String>, name: &str) -> (r: Vec<String>)
    ensures
        views(r@) == others(views(v@), name@),
{
    let mut out = no_texts();
    let ghost all = views(v@);
    let mut i: usize = 0;
    assert(all.take(0) =~= Seq::<Seq<char>>::empty());
    while i < v.len()
        invariant
            i <= v@.len(),
            all == views(v@),
            views(out@) == others(all.take(i as int), name@),
        decreases v@.len() - i,
    {
        assert(all.take(i + 1).drop_last() =~= all.take(i as int));
        assert(all.take(i + 1).last() == v@[i as int]@);
        if !same(v[i].as_str(), name) {
            push_text(&mut out, v[i].as_str());
        }
        i = i + 1;
    }
    assert(all.take(i as int) =~= all);
    out
}

/// The names that are left once a cluster, a context and a user have been removed.
pub fn cleanup_kubeconfig_entries(a: &AccessNames, cluster: &str, context: &str, user: &str) -> (r:
    AccessNames)
    ensures
        views(r.clusters@) == others(views(a.clusters@), cluster@),
        views(r.contexts@) == others(views(a.contexts@), context@),
        views(r.users@) == others(views(a.users@), user@),
        opt_view(r.current_context) == context_left(
            opt_view(a.current_context),
            context@,
            others(views(a.contexts@), context@),
        ),
{
    let contexts = without_name(&a.contexts, context);
    assert(views(contexts@).len() == contexts@.len());
    let current_context = match &a.current_context {
        Some(c) => if same(c.as_str(), context) {
            if contexts.len() > 0 {
                assert(views(contexts@)[0] == contexts@[0]@);
                Some(contexts[0].clone())
            } else {
                None
            }
        } else {
            Some(c.clone())
        },
        None => None,
    };
    AccessNames {
        clusters: without_name(&a.clusters, cluster),
        contexts,
        users: without_name(&a.users, user),
        current_context,
    }
}

/// What is removed is gone, and nothing else is.
pub proof fn law_cleanup_removes_only_its_entry(v: Seq<Seq<char>>, name: Seq<char>, x: Seq<char>)
    ensures
        others(v, name).contains(x) <==> v.contains(x) && x != name,
    decreases v.len(),
{
    if v.len() > 0 {
        let d = v.drop_last();
        law_cleanup_removes_only_its_entry(d, name, x);
        let o = others(d, name);
        if v.contains(x) {
            let i = choose|i: int| 0 <= i < v.len() && v[i] == x;
            if i < d.len() {
                assert(d[i] == x);
            }
        }
        if d.contains(x) {
            let i = choose|i: int| 0 <= i < d.len() && d[i] == x;
            assert(v[i] == x);
        }
        assert(v[v.len() - 1] == v.last());
        if v.last() != name {
            let p = o.push(v.last());
            assert(p[o.len() as int] == v.last());
            if o.contains(x) {
                let i = choose|i: int| 0 <= i < o.len() && o[i] == x;
                assert(p[i] == x);
            }
            if p.contains(x) {
                let i = choose|i: int| 0 <= i < p.len() && p[i] == x;
                if i < o.len() {
                    assert(o[i] == x);
                }
            }
        }
    }
}

/// The context in use is not the one that was removed.
pub proof fn law_current_context_is_not_removed(
    current: Option<Seq<char>>,
    removed: Seq<char>,
    contexts: Seq<Seq<char>>,
)
    ensures
        context_left(current, removed, others(contexts, removed)) != Some(removed),
{
    let left = others(contexts, removed);
    if left.len() > 0 {
        law_cleanup_removes_only_its_entry(contexts, removed, left[0]);
        assert(left.contains(left[0]));
    }
}

// ---------------------------------------------------------------------------
// Laws
// ---------------------------------------------------------------------------

/// A rollout is complete only where as many replicas as are asked for, one unless it is said, are ready,
/// are up to date and are available; what is not known does not count, and more of them never hurt.
pub proof fn law_rollouts_need_all_replicas(d: Rollout, e: Rollout)
    ensures
        rolled_out(d) && (d.desired is None || d.desired->0 > 0) ==> d.ready is Some && d.updated
            is Some && d.available is Some,
        d.desired matches Some(n) ==> (rolled_out(d) && n > 0 ==> d.ready->0 >= n && d.updated->0 >= n
            && d.available->0 >= n),
        d.desired == e.desired && rolled_out(d) && d.ready is Some && d.updated is Some
            && d.available is Some && e.ready is Some && e.updated is Some && e.available is Some
            && e.ready->0 >= d.ready->0 && e.updated->0 >= d.updated->0 && e.available->0
            >= d.available->0 ==> rolled_out(e),
        d.ready is Some && d.ready == d.updated && d.ready == d.available && d.desired == d.ready
            ==> rolled_out(d),
{
}

/// The roles of a node are those that its labels name.
pub proof fn law_roles_are_labels(labels: Seq<Seq<char>>, r: Seq<char>)
    ensures
        roles_in(labels).contains(r) <==> labels.contains(ROLE_PREFIX@ + r),
    decreases labels.len(),
{
    let full = ROLE_PREFIX@ + r;
    let n = ROLE_PREFIX@.len() as int;
    if labels.len() > 0 {
        let d = labels.drop_last();
        let l = labels.last();
        law_roles_are_labels(d, r);
        assert(labels[labels.len() - 1] == l);
        if begins(l, ROLE_PREFIX@) {
            assert(l.subrange(0, n) == ROLE_PREFIX@);
            assert(l =~= l.subrange(0, n) + l.skip(n));
        }
        assert(full.subrange(0, n) =~= ROLE_PREFIX@);
        assert(full.skip(n) =~= r);
        let a = roles_in(d);
        let b = a.push(l.skip(n));
        assert(b[a.len() as int] == l.skip(n));
        if a.contains(r) {
            let i = choose|i: int| 0 <= i < a.len() && a[i] == r;
            assert(b[i] == r);
        }
        if b.contains(r) && l.skip(n) != r {
            let i = choose|i: int| 0 <= i < b.len() && b[i] == r;
            assert(a[i] == r);
        }
        if d.contains(full) {
            let i = choose|i: int| 0 <= i < d.len() && d[i] == full;
            assert(labels[i] == full);
        }
        if labels.contains(full) && l != full {
            let i = choose|i: int| 0 <= i < labels.len() && labels[i] == full;
            assert(d[i] == full);
        }
    }
}

/// A node is ready exactly where the first thing that it says of its readiness is that it is so.
pub proof fn law_ready_nodes_say_so(conditions: Seq<(String, String)>, k: int)
    requires
        0 <= k < conditions.len(),
        conditions[k].0@ == "Ready"@,
        forall|i: int| 0 <= i < k ==> (#[trigger] conditions[i]).0@ != "Ready"@,
    ensures
        node_status(conditions) == "Ready"@ <==> conditions[k].1@ == "True"@,
        node_status(conditions) == "NotReady"@ <==> conditions[k].1@ != "True"@,
{
    let p = crate::cluster::docker::queries::pair_views(conditions);
    crate::textmap::lemma_key_index(p, "Ready"@);
    let i = crate::textmap::key_index(p, "Ready"@);
    assert(p[k].0 == "Ready"@);
    if i < k {
        assert(p[i].0 == conditions[i].0@);
    }
    assert(i == k);
    reveal_strlit("Ready");
    reveal_strlit("NotReady");
    assert("Ready"@.len() != "NotReady"@.len());
}

/// Each flag that is set counts once: all of them where all are set, none where none is.
pub proof fn law_flags_are_counted(v: Seq<bool>, i: int)
    ensures
        count_set(v) <= v.len(),
        count_set(v) == v.len() <==> forall|j: int| 0 <= j < v.len() ==> #[trigger] v[j],
        count_set(v) == 0 <==> forall|j: int| 0 <= j < v.len() ==> !(#[trigger] v[j]),
        0 <= i < v.len() ==> count_set(v) == count_set(v.remove(i)) + if v[i] {
            1nat
        } else {
            0nat
        },
    decreases v.len(),
{
    if v.len() > 0 {
        let d = v.drop_last();
        law_flags_are_counted(d, i);
        assert(v[v.len() - 1] == v.last());
        assert forall|j: int| 0 <= j < d.len() implies #[trigger] d[j] == v[j] by {}
        if forall|j: int| 0 <= j < d.len() ==> #[trigger] d[j] {
            assert forall|j: int| 0 <= j < v.len() - 1 implies #[trigger] v[j] by {
                assert(d[j]);
            }
        }
        if forall|j: int| 0 <= j < d.len() ==> !(#[trigger] d[j]) {
            assert forall|j: int| 0 <= j < v.len() - 1 implies !(#[trigger] v[j]) by {
                assert(!d[j]);
            }
        }
        if i == v.len() - 1 {
            assert(v.remove(i) =~= d);
        } else if 0 <= i < v.len() {
            assert(v.remove(i).drop_last() =~= d.remove(i));
            assert(v.remove(i).last() == v.last());
        }
    }
}

/// The ports of a container are the numbers among those given that are ports.
pub proof fn law_only_ports_are_ports(v: Seq<i32>, p: u16)
    ensures
        ports_in(v).contains(p) <==> v.contains(p as i32),
    decreases v.len(),
{
    if v.len() > 0 {
        let d = v.drop_last();
        let a = ports_in(d);
        law_only_ports_are_ports(d, p);
        assert(v[v.len() - 1] == v.last());
        let b = a.push(v.last() as u16);
        assert(b[a.len() as int] == v.last() as u16);
        if a.contains(p) {
            let i = choose|i: int| 0 <= i < a.len() && a[i] == p;
            assert(b[i] == p);
        }
        if b.contains(p) && v.last() as u16 != p {
            let i = choose|i: int| 0 <= i < b.len() && b[i] == p;
            assert(a[i] == p);
        }
        if d.contains(p as i32) {
            let i = choose|i: int| 0 <= i < d.len() && d[i] == p as i32;
            assert(v[i] == p as i32);
        }
        if v.contains(p as i32) && v.last() != p as i32 {
            let i = choose|i: int| 0 <= i < v.len() && v[i] == p as i32;
            assert(d[i] == p as i32);
        }
    }
}

/// Every rule with a host is listed with its paths, all of them where it lists none; rules without a
/// host are not.
pub proof fn law_rules_with_hosts_are_listed(rules: Seq<RawRule>, i: int)
    requires
        0 <= i < rules.len(),
    ensures
        rules[i].host matches Some(h) ==> (h@.len() > 0 ==> rule_hosts(rules).contains(
            (h@, rule_paths(rules[i].paths)),
        )),
        forall|j: int| 0 <= j < rule_hosts(rules).len() ==> (#[trigger] rule_hosts(rules)[j]).0.len()
            > 0,
        rule_hosts(rules).len() <= rules.len(),
        rules[i].paths is None ==> rule_paths(rules[i].paths) == seq!["/"@],
        rules[i].paths matches Some(p) ==> rule_paths(rules[i].paths).len() == p@.len(),
    decreases rules.len(),
{
    let d = rules.drop_last();
    let a = rule_hosts(d);
    let b = rule_hosts(rules);
    if rules[i].paths is None {
        assert(rule_paths(rules[i].paths) =~= seq!["/"@]);
    }
    if i < d.len() {
        law_rules_with_hosts_are_listed(d, i);
        assert(d[i] == rules[i]);
        if let Some(h) = rules[i].host {
            if h@.len() > 0 {
                let x = (h@, rule_paths(rules[i].paths));
                let k = choose|k: int| 0 <= k < a.len() && a[k] == x;
                assert(b[k] == x);
            }
        }
    } else {
        if d.len() > 0 {
            law_rules_with_hosts_are_listed(d, 0);
        }
        if let Some(h) = rules[i].host {
            if h@.len() > 0 {
                assert(b[a.len() as int] == (h@, rule_paths(rules[i].paths)));
            }
        }
    }
    assert forall|j: int| 0 <= j < b.len() implies (#[trigger] b[j]).0.len() > 0 by {
        if j < a.len() {
            assert(b[j] == a[j]);
        }
    }
}

/// The routes are those that the rules stand for, in order, and no others.
pub proof fn law_routes_are_those_of_rules(rules: Seq<Seq<char>>, r: (Seq<char>, Seq<char>))
    ensures
        rule_routes(rules).contains(r) <==> exists|i: int|
            0 <= i < rules.len() && rule_route(#[trigger] rules[i]) == Some(r),
    decreases rules.len(),
{
    if rules.len() > 0 {
        let d = rules.drop_last();
        let a = rule_routes(d);
        let b = rule_routes(rules);
        law_routes_are_those_of_rules(d, r);
        assert(rules[rules.len() - 1] == rules.last());
        if b.contains(r) {
            let k = choose|k: int| 0 <= k < b.len() && b[k] == r;
            if k < a.len() {
                assert(a[k] == r);
                let i = choose|i: int| 0 <= i < d.len() && rule_route(#[trigger] d[i]) == Some(r);
                assert(rules[i] == d[i]);
            } else {
                assert(rule_route(rules[rules.len() - 1]) == Some(r));
            }
        }
        if exists|i: int| 0 <= i < rules.len() && rule_route(#[trigger] rules[i]) == Some(r) {
            let i = choose|i: int|
                0 <= i < rules.len() && rule_route(#[trigger] rules[i]) == Some(r);
            if i < d.len() {
                assert(d[i] == rules[i]);
                let k = choose|k: int| 0 <= k < a.len() && a[k] == r;
                assert(b[k] == r);
            } else {
                assert(b[a.len() as int] == r);
            }
        }
    }
}

/// Group and version are read back from the notation in which they are given.
pub proof fn law_group_and_version_read_back(group: Seq<char>, version: Seq<char>)
    requires
        !group.contains('/'),
        !version.contains('/'),
    ensures
        group_and_version(group.push('/') + version) == (group, version),
        group_and_version(version) == (Seq::<char>::empty(), version),
{
    let s = group.push('/') + version;
    crate::text::lemma_pieces_head(group, '/', version);
    crate::text::lemma_pieces_single(version, '/');
    assert(s[group.len() as int] == '/');
    assert(pieces(s, '/') =~= seq![group, version]);
}

/// A document is complete exactly where it tells version, kind and name; a resource without a group in
/// the usual namespace is taken to belong to none.
pub proof fn law_documents_must_be_complete(h: DocumentHead)
    ensures
        lacking(h) is None <==> h.api_version is Some && h.kind is Some && (h.metadata matches Some(m)
            && m.0 is Some),
        h.metadata matches Some(m) ==> (m.1 matches Some(n) ==> namespace_in(h) == n@),
        h.metadata matches Some(m) ==> (m.1 is None ==> namespace_in(h) == "default"@),
{
}

/// A context that was not removed stays in use; else one that is left takes its place, where there is
/// any.
pub proof fn law_context_in_use_is_left(
    current: Option<Seq<char>>,
    removed: Seq<char>,
    left: Seq<Seq<char>>,
)
    ensures
        current != Some(removed) ==> context_left(current, removed, left) == current,
        current == Some(removed) && left.len() > 0 ==> (context_left(current, removed, left)
            matches Some(c) && left.contains(c)),
        current == Some(removed) && left.len() == 0 ==> context_left(current, removed, left) is None,
{
    if current == Some(removed) && left.len() > 0 {
        assert(left.contains(left[0]));
    }
}

/// A pod is described by its own name, phase and containers.
pub proof fn law_pods_are_described_as_they_are(r: PodInfo, p: RawPod)
    requires
        describes_pod(r, p),
    ensures
        p.name is Some ==> r.name@ == p.name->0@,
        p.phase is Some ==> r.status@ == p.phase->0@,
        p.phase is None ==> r.status@ == "Unknown"@,
        r.ready@ == decimal(count_set(p.ready@)) + "/"@ + decimal(p.containers as nat),
{
}

/// A node is described by its own name, addresses and version.
pub proof fn law_nodes_are_described_as_they_are(r: NodeInfo, n: RawNode)
    requires
        describes_node(r, n),
    ensures
        n.name is Some ==> r.name@ == n.name->0@,
        n.kubelet_version is Some ==> r.version@ == n.kubelet_version->0@,
        r.status@ == node_status(n.conditions@),
        r.internal_ip is Some <==> value_of(n.addresses@, "InternalIP"@) is Some,
        r.internal_ip is Some ==> Some(r.internal_ip->0@) == value_of(n.addresses@, "InternalIP"@),
{
}

/// A pod is listed with all of its containers, each in its place.
pub proof fn law_all_containers_are_described(r: PodFullInfo, p: RawPodFull, i: int)
    requires
        describes_full_pod(r, p),
        0 <= i < p.containers@.len(),
    ensures
        r.containers@.len() == p.containers@.len(),
        describes_container(r.containers@[i], p.containers@[i]),
        p.name is Some ==> r.name@ == p.name->0@,
        p.namespace is Some ==> r.namespace@ == p.namespace->0@,
{
    assert(describes_container(r.containers@[i], p.containers@[i]));
}

/// A rule with a host is a route to it, at its path or at the root; one without a host is none.
pub proof fn law_routes_go_to_hosts(host: Option<Seq<char>>, path: Option<Seq<char>>)
    ensures
        route_for(host, path) is Some <==> host is Some,
        host is Some ==> (route_for(host, path)->0).0 == host->0,
        host is Some && path is Some ==> (route_for(host, path)->0).1 == path->0,
        host is Some && path is None ==> (route_for(host, path)->0).1 == "/"@,
{
}

/// A resource is that of its document: its kind, its name, and the namespace it is in.
pub proof fn law_resources_are_those_of_the_document(t: ApplyTarget, h: DocumentHead, small: Seq<char>)
    requires
        targets(t, h, small),
    ensures
        h.metadata is Some && h.kind is Some && h.api_version is Some,
        t.resource.kind@ == h.kind->0@,
        t.resource.api_version@ == h.api_version->0@,
        t.resource.plural@ == small + "s"@,
        (h.metadata->0).0 is Some && (h.metadata->0).0->0@ == t.name@,
        t.namespace@ == namespace_in(h),
        !t.namespaced ==> t.namespace@ == "default"@,
{
}

/// A document without a namespace is about the usual one.
pub proof fn law_documents_have_a_namespace(h: DocumentHead)
    ensures
        h.metadata is Some && (h.metadata->0).1 is Some ==> namespace_in(h) == (h.metadata->0).1->0@,
        h.metadata is None || (h.metadata->0).1 is None ==> namespace_in(h) == "default"@,
{
}

/// A row of the table of nodes holds every column, each at least as wide as it is meant to be.
pub proof fn law_rows_of_nodes_hold_every_column(
    name: Seq<char>,
    status: Seq<char>,
    roles: Seq<char>,
    ip: Seq<char>,
    version: Seq<char>,
)
    ensures
        begins(node_row(name, status, roles, ip, version), padded(name, 20)),
        ends(node_row(name, status, roles, ip, version), version),
        has_sub(node_row(name, status, roles, ip, version), padded(status, 10)),
        has_sub(node_row(name, status, roles, ip, version), padded(roles, 15)),
        has_sub(node_row(name, status, roles, ip, version), padded(ip, 15)),
{
    let (a, b, c, d) = (padded(name, 20), padded(status, 10), padded(roles, 15), padded(ip, 15));
    let h1 = a + " "@;
    let h2 = h1 + b + " "@;
    let h3 = h2 + c + " "@;
    let h4 = h3 + d + " "@;
    let t = h4 + version;
    assert(node_row(name, status, roles, ip, version) == t);
    lemma_has_in(b, h1, " "@);
    lemma_has_in(b, h2, c);
    lemma_has_in(b, h2 + c, " "@);
    lemma_has_in(b, h3, d);
    lemma_has_in(b, h3 + d, " "@);
    lemma_has_in(b, h4, version);
    lemma_has_in(c, h2, " "@);
    lemma_has_in(c, h3, d);
    lemma_has_in(c, h3 + d, " "@);
    lemma_has_in(c, h4, version);
    lemma_has_in(d, h3, " "@);
    lemma_has_in(d, h4, version);
    assert(t.subrange(0, a.len() as int) =~= a);
    assert(t.subrange(t.len() - version.len(), t.len() as int) =~= version);
}

} // verus!
