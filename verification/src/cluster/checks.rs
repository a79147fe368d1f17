//! The verdicts of the single diagnostic tests on what was found out.

use vstd::prelude::*;
use crate::cluster::config::ClusterConfig;
use crate::cluster::ingress::IngressHealthStatus;
use crate::number::{decimal, i64_text, signed_decimal, u64_text};
use crate::text::{
    begins, byte_prefix, contains, has_sub, join, joined, lemma_views_push, lemma_views_take, lines, opt_view, replace, replaced, same,
    split_lines, starts_with, strip_prefix, take_bytes, trim, trimmed, views,
};

verus! {

/// The outcome of a test: passed, perhaps with a detail, or failed for a reason.
pub type Verdict = Result<Option<String>, String>;

/// The text-valued counterpart of [`Verdict`].
pub type VerdictView = Result<Option<Seq<char>>, Seq<char>>;

/// The texts of a verdict.
pub open spec fn verdict(r: Verdict) -> VerdictView {
    match r {
        Ok(d) => Ok(opt_view(d)),
        Err(e) => Err(e@),
    }
}

/// What a service answered: it could not be reached at all, the request failed, or a value came.
#[derive(Clone, Debug)]
pub enum Reply<T> {
    Unavailable(String),
    Failed(String),
    Got(T),
}

/// A node as listed by the API server.
#[derive(Clone, Debug)]
pub struct NodeStatus {
    pub name: String,
    pub status: String,
}

/// A pod that waits, with the reasons its containers give.
#[derive(Clone, Debug)]
pub struct WaitingPod {
    pub name: String,
    pub reasons: Vec<String>,
}

/// A container's state: why it waits, why it ended, how often it was restarted.
#[derive(Clone, Debug)]
pub struct ContainerState {
    pub waiting_reason: Option<String>,
    pub terminated_reason: Option<String>,
    pub restart_count: i32,
}

/// A pod with the states of its containers, then of its init containers.
#[derive(Clone, Debug)]
pub struct PodStates {
    pub namespace: String,
    pub name: String,
    pub containers: Vec<ContainerState>,
}

/// A condition that a node reports.
#[derive(Clone, Debug)]
pub struct NodeCondition {
    pub node: Option<String>,
    pub kind: String,
    pub status: String,
}

// ---------------------------------------------------------------------------
// Lists
// ---------------------------------------------------------------------------

/// At most `max` of the items, with the number of the others.
pub open spec fn truncated(items: Seq<Seq<char>>, max: nat) -> Seq<char> {
    if items.len() > max {
        joined(items.take(max as int), ", "@) + (" (+"@ + decimal((items.len() - max) as nat) + ")"@)
    } else {
        joined(items, ", "@)
    }
}

/// The first `n` strings.
fn first_of(items: &Vec<String>, n: usize) -> (r: Vec<String>)
    ensures
        views(r@) == if n <= items@.len() {
            views(items@).take(n as int)
        } else {
            views(items@)
        },
{
    let mut out: Vec<String> = Vec::new();
    let mut i: usize = 0;
    while i < items.len() && i < n
        invariant
            i <= items@.len(),
            i <= n,
            views(out@) =~= views(items@).take(i as int),
        decreases items@.len() - i,
    {
        proof {
            lemma_views_push(out@, items@[i as int]);
            lemma_views_take(items@, i as int);
        }
        out.push(items[i].clone());
        i = i + 1;
    }
    assert(views(items@).take(views(items@).len() as int) =~= views(items@));
    out
}

/// A list of items, at most `max` of them shown, with a suffix `(+N)` for the rest.
pub fn truncated_list(items: &Vec<String>, max: usize) -> (r: String)
    ensures
        r@ == truncated(views(items@), max as nat),
{
    let shown = first_of(items, max);
    assert(views(items@).take(views(items@).len() as int) =~= views(items@));
    let mut s = join(&shown, ", ");
    if items.len() > max {
        let mut suffix = " (+".to_owned();
        suffix.append(u64_text((items.len() - max) as u64).as_str());
        suffix.append(")");
        s.append(suffix.as_str());
    }
    s
}

// ---------------------------------------------------------------------------
// Prerequisites
// ---------------------------------------------------------------------------

/// A string literal as a passing detail.
pub(crate) fn passed(detail: &str) -> (r: Verdict)
    ensures
        verdict(r) == Ok::<Option<Seq<char>>, Seq<char>>(Some(detail@)),
{
    Ok(Some(detail.to_owned()))
}

/// A string literal as a reason of failure.
pub(crate) fn failed(reason: &str) -> (r: Verdict)
    ensures
        verdict(r) == Err::<Option<Seq<char>>, Seq<char>>(reason@),
{
    Err(reason.to_owned())
}

/// A failure whose reason is an error text behind a prefix.
pub(crate) fn failed_with(prefix: &str, e: &str) -> (r: Verdict)
    ensures
        verdict(r) == Err::<Option<Seq<char>>, Seq<char>>(prefix@ + e@),
{
    let mut s = prefix.to_owned();
    s.append(e);
    Err(s)
}

pub open spec fn presence_verdict(found: Result<bool, String>, missing: Seq<char>) -> VerdictView {
    match found {
        Err(e) => Err(e@),
        Ok(true) => Ok(None),
        Ok(false) => Err(missing),
    }
}

/// Whether the Docker daemon answers.
pub fn check_docker_accessible(reachable: &Result<bool, String>) -> (r: Verdict)
    ensures
        verdict(r) == presence_verdict(*reachable, "Docker daemon not reachable"@),
{
    match reachable {
        Err(e) => Err(e.clone()),
        Ok(b) => if *b {
            Ok(None)
        } else {
            failed("Docker daemon not reachable")
        },
    }
}

/// Whether kubectl is on the search path.
pub fn check_kubectl_installed(installed: &Result<bool, String>) -> (r: Verdict)
    ensures
        verdict(r) == presence_verdict(*installed, "kubectl not found in PATH"@),
{
    match installed {
        Err(e) => Err(e.clone()),
        Ok(b) => if *b {
            Ok(None)
        } else {
            failed("kubectl not found in PATH")
        },
    }
}

/// Whether some line says that Docker's own profile is enforced.
pub open spec fn docker_profile_enforced(profiles: Seq<char>) -> bool {
    exists|i: int|
        0 <= i < lines(profiles).len() && has_sub(#[trigger] lines(profiles)[i], "docker-default"@)
            && has_sub(lines(profiles)[i], "(enforce)"@)
}

pub open spec fn apparmor_verdict(linux: bool, active: bool, profiles: Seq<char>) -> VerdictView {
    if !linux {
        Ok(Some("not applicable (non-Linux)"@))
    } else if !active {
        Ok(Some("not active"@))
    } else if docker_profile_enforced(profiles) {
        Ok(Some("active, docker-default enforcing (k3s uses unconfined)"@))
    } else {
        Ok(Some("active"@))
    }
}

/// What the AppArmor profiles of the host mean for the cluster. Never a failure.
pub fn check_apparmor(linux: bool, active: bool, profiles: &str) -> (r: Verdict)
    ensures
        verdict(r) == apparmor_verdict(linux, active, profiles@),
{
    if !linux {
        return passed("not applicable (non-Linux)");
    }
    if !active {
        return passed("not active");
    }
    let ls = split_lines(profiles);
    let ghost all = lines(profiles@);
    let mut i: usize = 0;
    while i < ls.len()
        invariant
            i <= ls@.len(),
            views(ls@) == all,
            all == lines(profiles@),
            linux,
            active,
            forall|j: int|
                0 <= j < i ==> !(has_sub(#[trigger] all[j], "docker-default"@) && has_sub(
                    all[j],
                    "(enforce)"@,
                )),
        decreases ls@.len() - i,
    {
        assert(all[i as int] == ls@[i as int]@);
        if contains(ls[i].as_str(), "docker-default") && contains(ls[i].as_str(), "(enforce)") {
            assert(docker_profile_enforced(profiles@));
            return passed("active, docker-default enforcing (k3s uses unconfined)");
        }
        i = i + 1;
    }
    passed("active")
}

/// Whether the kernel lists the module `br_netfilter`.
pub open spec fn br_netfilter_listed(modules: Seq<char>) -> bool {
    exists|i: int|
        0 <= i < lines(modules).len() && begins(#[trigger] lines(modules)[i], "br_netfilter "@)
}

pub open spec fn br_netfilter_verdict(
    linux: bool,
    modules: Seq<char>,
    sysctl: Seq<char>,
) -> VerdictView {
    if !linux {
        Ok(Some("not applicable (non-Linux)"@))
    } else if !br_netfilter_listed(modules) {
        Ok(Some("not loaded (ok for Docker mode)"@))
    } else if trimmed(sysctl) == "1"@ {
        Ok(Some("loaded, bridge-nf-call-iptables=1"@))
    } else {
        Ok(Some("loaded, bridge-nf-call-iptables!=1 (ok for Docker mode)"@))
    }
}

/// What the bridge module of the host kernel means for the cluster. Never a failure.
pub fn check_br_netfilter(linux: bool, modules: &str, sysctl: &str) -> (r: Verdict)
    ensures
        verdict(r) == br_netfilter_verdict(linux, modules@, sysctl@),
{
    if !linux {
        return passed("not applicable (non-Linux)");
    }
    let ls = split_lines(modules);
    let ghost all = lines(modules@);
    let mut i: usize = 0;
    while i < ls.len()
        invariant
            i <= ls@.len(),
            views(ls@) == all,
            linux,
            all == lines(modules@),
            forall|j: int| 0 <= j < i ==> !begins(#[trigger] all[j], "br_netfilter "@),
        decreases ls@.len() - i,
    {
        assert(all[i as int] == ls@[i as int]@);
        if starts_with(ls[i].as_str(), "br_netfilter ") {
            assert(br_netfilter_listed(modules@));
            let t = trim(sysctl);
            return if same(t.as_str(), "1") {
                passed("loaded, bridge-nf-call-iptables=1")
            } else {
                passed("loaded, bridge-nf-call-iptables!=1 (ok for Docker mode)")
            };
        }
        i = i + 1;
    }
    passed("not loaded (ok for Docker mode)")
}

// ---------------------------------------------------------------------------
// Cluster
// ---------------------------------------------------------------------------

pub open spec fn container_running_verdict(running: Result<bool, String>, name: Seq<char>) -> VerdictView {
    match running {
        Err(e) => Err(e@),
        Ok(true) => Ok(None),
        Ok(false) => Err("container '"@ + name + "' not running"@),
    }
}

/// Whether the K3s container runs.
pub fn check_container_running(running: &Result<bool, String>, name: &str) -> (r: Verdict)
    ensures
        verdict(r) == container_running_verdict(*running, name@),
{
    match running {
        Err(e) => Err(e.clone()),
        Ok(b) => if *b {
            Ok(None)
        } else {
            let mut s = "container '".to_owned();
            s.append(name);
            s.append("' not running");
            Err(s)
        },
    }
}

pub open spec fn api_verdict(connected: Result<bool, String>) -> VerdictView {
    match connected {
        Err(e) => Err("client init failed: "@ + e@),
        Ok(true) => Ok(None),
        Ok(false) => Err("API server not responding"@),
    }
}

/// Whether the API server answers.
pub fn check_api_reachable(connected: &Result<bool, String>) -> (r: Verdict)
    ensures
        verdict(r) == api_verdict(*connected),
{
    match connected {
        Err(e) => failed_with("client init failed: ", e.as_str()),
        Ok(b) => if *b {
            Ok(None)
        } else {
            failed("API server not responding")
        },
    }
}

/// The names of the nodes that are not ready.
pub open spec fn not_ready(nodes: Seq<NodeStatus>) -> Seq<Seq<char>>
    decreases nodes.len(),
{
    if nodes.len() == 0 {
        Seq::empty()
    } else if nodes.last().status@ != "Ready"@ {
        not_ready(nodes.drop_last()).push(nodes.last().name@)
    } else {
        not_ready(nodes.drop_last())
    }
}

pub open spec fn nodes_verdict(nodes: Result<Vec<NodeStatus>, String>) -> VerdictView {
    match nodes {
        Err(e) => Err("failed to list nodes: "@ + e@),
        Ok(v) => if v@.len() == 0 {
            Err("no nodes found"@)
        } else if not_ready(v@).len() == 0 {
            Ok(Some(decimal(v@.len()) + " node(s)"@))
        } else {
            Err("not ready: "@ + joined(not_ready(v@), ", "@))
        },
    }
}

/// Whether there are nodes and all of them are ready.
pub fn check_nodes_ready(nodes: &Result<Vec<NodeStatus>, String>) -> (r: Verdict)
    ensures
        verdict(r) == nodes_verdict(*nodes),
{
    match nodes {
        Err(e) => failed_with("failed to list nodes: ", e.as_str()),
        Ok(v) => {
            if v.len() == 0 {
                return failed("no nodes found");
            }
            let mut names: Vec<String> = Vec::new();
            let mut i: usize = 0;
            while i < v.len()
                invariant
                    i <= v@.len(),
                    views(names@) =~= not_ready(v@.take(i as int)),
                decreases v@.len() - i,
            {
                assert(v@.take(i + 1).drop_last() =~= v@.take(i as int));
                if !same(v[i].status.as_str(), "Ready") {
                    names.push(v[i].name.clone());
                }
                i = i + 1;
            }
            assert(v@.take(i as int) =~= v@);
            assert(views(names@).len() == names@.len());
            if names.len() == 0 {
                let mut s = u64_text(v.len() as u64);
                s.append(" node(s)");
                Ok(Some(s))
            } else {
                let j = join(&names, ", ");
                failed_with("not ready: ", j.as_str())
            }
        },
    }
}

/// The date and time of a timestamp, up to seconds.
pub open spec fn to_seconds(ts: Seq<char>) -> Seq<char> {
    match byte_prefix(ts, 19) {
        Some(t) => t,
        None => ts,
    }
}

pub open spec fn container_health_verdict(
    state: Reply<(Option<i64>, Option<String>)>,
) -> VerdictView {
    match state {
        Reply::Unavailable(e) => Err(e@),
        Reply::Failed(e) => Err("inspect failed: "@ + e@),
        Reply::Got(s) => {
            let restarts = match s.0 {
                Some(n) => n as int,
                None => 0,
            };
            let ts = to_seconds(
                match s.1 {
                    Some(t) => t@,
                    None => Seq::empty(),
                },
            );
            if restarts > 5 {
                Err("high restart count: "@ + signed_decimal(restarts) + " (started: "@ + ts + ")"@)
            } else if restarts > 0 {
                Ok(
                    Some(
                        signed_decimal(restarts) + " restart(s), up since "@ + replaced(
                            ts,
                            "T"@,
                            " "@,
                        ),
                    ),
                )
            } else {
                Ok(Some("up since "@ + replaced(ts, "T"@, " "@)))
            }
        },
    }
}

/// How often the container was restarted and since when it runs: more than five restarts fail.
pub fn check_container_health(state: &Reply<(Option<i64>, Option<String>)>) -> (r: Verdict)
    ensures
        verdict(r) == container_health_verdict(*state),
{
    match state {
        Reply::Unavailable(e) => Err(e.clone()),
        Reply::Failed(e) => failed_with("inspect failed: ", e.as_str()),
        Reply::Got(s) => {
            let restarts: i64 = match s.0 {
                Some(n) => n,
                None => 0,
            };
            let started = match &s.1 {
                Some(t) => t.clone(),
                None => String::new(),
            };
            let ts = match take_bytes(started.as_str(), 19) {
                Some(t) => t,
                None => started,
            };
            if restarts > 5 {
                let mut m = "high restart count: ".to_owned();
                m.append(i64_text(restarts).as_str());
                m.append(" (started: ");
                m.append(ts.as_str());
                m.append(")");
                Err(m)
            } else {
                proof {
                    reveal_strlit("T");
                }
                let shown = replace(ts.as_str(), "T", " ");
                if restarts > 0 {
                    let mut m = i64_text(restarts);
                    m.append(" restart(s), up since ");
                    m.append(shown.as_str());
                    Ok(Some(m))
                } else {
                    let mut m = "up since ".to_owned();
                    m.append(shown.as_str());
                    Ok(Some(m))
                }
            }
        },
    }
}

/// Whether the two architectures are known and differ.
pub open spec fn arch_differs(binary: Seq<char>, docker: Seq<char>) -> bool {
    ||| binary == "x86_64"@ && docker == "aarch64"@
    ||| binary == "aarch64"@ && docker == "x86_64"@
}

pub open spec fn arch_verdict(
    arch: Reply<Option<String>>,
    binary: Seq<char>,
    macos: bool,
) -> VerdictView {
    match arch {
        Reply::Unavailable(e) => Err(e@),
        Reply::Failed(e) => Err("docker info failed: "@ + e@),
        Reply::Got(a) => {
            let docker = match a {
                Some(s) => s@,
                None => "unknown"@,
            };
            if arch_differs(binary, docker) {
                let m = "binary="@ + binary + ", Docker="@ + docker;
                if macos {
                    Err(m + " (Rosetta detected)"@)
                } else {
                    Err(m)
                }
            } else {
                Ok(Some(docker))
            }
        },
    }
}

/// Whether this program and the Docker daemon are built for the same architecture.
pub fn check_arch_mismatch(arch: &Reply<Option<String>>, binary: &str, macos: bool) -> (r: Verdict)
    ensures
        verdict(r) == arch_verdict(*arch, binary@, macos),
{
    match arch {
        Reply::Unavailable(e) => Err(e.clone()),
        Reply::Failed(e) => failed_with("docker info failed: ", e.as_str()),
        Reply::Got(a) => {
            let docker = match a {
                Some(s) => s.clone(),
                None => "unknown".to_owned(),
            };
            let differs = (same(binary, "x86_64") && same(docker.as_str(), "aarch64")) || (same(
                binary,
                "aarch64",
            ) && same(docker.as_str(), "x86_64"));
            if differs {
                let mut m = "binary=".to_owned();
                m.append(binary);
                m.append(", Docker=");
                m.append(docker.as_str());
                if macos {
                    m.append(" (Rosetta detected)");
                }
                Err(m)
            } else {
                Ok(Some(docker))
            }
        },
    }
}

// ---------------------------------------------------------------------------
// Core services
// ---------------------------------------------------------------------------

/// How many pods run.
pub open spec fn running_count(statuses: Seq<Seq<char>>) -> nat
    decreases statuses.len(),
{
    if statuses.len() == 0 {
        0
    } else {
        running_count(statuses.drop_last()) + if statuses.last() == "Running"@ {
            1nat
        } else {
            0nat
        }
    }
}

/// How many pods run.
fn count_running(statuses: &Vec<String>) -> (r: usize)
    ensures
        r == running_count(views(statuses@)),
        r <= statuses@.len(),
{
    let mut n: usize = 0;
    let mut i: usize = 0;
    while i < statuses.len()
        invariant
            i <= statuses@.len(),
            n <= i,
            n == running_count(views(statuses@).take(i as int)),
        decreases statuses@.len() - i,
    {
        proof {
            lemma_views_take(statuses@, i as int);
        }
        assert(views(statuses@).take(i + 1).drop_last() =~= views(statuses@).take(i as int));
        if same(statuses[i].as_str(), "Running") {
            n = n + 1;
        }
        i = i + 1;
    }
    assert(views(statuses@).take(i as int) =~= views(statuses@));
    n
}

pub open spec fn coredns_verdict(pods: Reply<Vec<String>>) -> VerdictView {
    match pods {
        Reply::Unavailable(e) => Err("client init failed: "@ + e@),
        Reply::Failed(e) => Err("failed to list pods: "@ + e@),
        Reply::Got(v) => if running_count(views(v@)) > 0 {
            Ok(Some(decimal(running_count(views(v@))) + " pod(s)"@))
        } else {
            Err("no running CoreDNS pods"@)
        },
    }
}

/// Whether a CoreDNS pod runs, given the statuses of those that exist.
pub fn check_coredns_running(pods: &Reply<Vec<String>>) -> (r: Verdict)
    ensures
        verdict(r) == coredns_verdict(*pods),
{
    match pods {
        Reply::Unavailable(e) => failed_with("client init failed: ", e.as_str()),
        Reply::Failed(e) => failed_with("failed to list pods: ", e.as_str()),
        Reply::Got(v) => {
            let n: usize = count_running(v);
            if n > 0 {
                let mut s = u64_text(n as u64);
                s.append(" pod(s)");
                Ok(Some(s))
            } else {
                failed("no running CoreDNS pods")
            }
        },
    }
}

pub open spec fn traefik_verdict(exists_: bool) -> VerdictView {
    if exists_ {
        Ok(None)
    } else {
        Err("traefik service not found in kube-system"@)
    }
}

/// Whether the Traefik service exists.
pub fn check_traefik_service(exists_: bool) -> (r: Verdict)
    ensures
        verdict(r) == traefik_verdict(exists_),
{
    if exists_ {
        Ok(None)
    } else {
        failed("traefik service not found in kube-system")
    }
}

pub open spec fn provisioner_verdict(pods: Reply<Vec<String>>) -> VerdictView {
    match pods {
        Reply::Unavailable(e) => Err("client init failed: "@ + e@),
        Reply::Failed(e) => Err("failed to list pods: "@ + e@),
        Reply::Got(v) => if running_count(views(v@)) > 0 {
            Ok(None)
        } else {
            Err("no running local-path-provisioner pods"@)
        },
    }
}

/// Whether a pod of the volume provisioner runs, given the statuses of those that exist.
pub fn check_local_path_provisioner(pods: &Reply<Vec<String>>) -> (r: Verdict)
    ensures
        verdict(r) == provisioner_verdict(*pods),
{
    match pods {
        Reply::Unavailable(e) => failed_with("client init failed: ", e.as_str()),
        Reply::Failed(e) => failed_with("failed to list pods: ", e.as_str()),
        Reply::Got(v) => if count_running(v) > 0 {
            Ok(None)
        } else {
            failed("no running local-path-provisioner pods")
        },
    }
}

/// The failure that the first look into the container shows, if any.
pub open spec fn flannel_config_failure(out: Reply<String>) -> Option<Seq<char>> {
    match out {
        Reply::Unavailable(e) => Some(e@),
        Reply::Failed(e) => Some("exec failed: "@ + e@),
        Reply::Got(s) => if trimmed(s@) != "ok"@ {
            Some("flannel CNI config not found in k3s container"@)
        } else {
            None
        },
    }
}

/// Whether the Flannel configuration is in the container: the reason if it is not.
pub fn check_flannel_config(out: &Reply<String>) -> (r: Option<String>)
    ensures
        opt_view(r) == flannel_config_failure(*out),
{
    match out {
        Reply::Unavailable(e) => Some(e.clone()),
        Reply::Failed(e) => {
            let mut s = "exec failed: ".to_owned();
            s.append(e.as_str());
            Some(s)
        },
        Reply::Got(s) => {
            let t = trim(s.as_str());
            if !same(t.as_str(), "ok") {
                Some("flannel CNI config not found in k3s container".to_owned())
            } else {
                None
            }
        },
    }
}

/// What follows `prefix` in the first of `ls` that begins with it.
pub open spec fn first_value(ls: Seq<Seq<char>>, prefix: Seq<char>) -> Option<Seq<char>>
    decreases ls.len(),
{
    if ls.len() == 0 {
        None
    } else if begins(ls[0], prefix) {
        Some(ls[0].skip(prefix.len() as int))
    } else {
        first_value(ls.skip(1), prefix)
    }
}

/// What follows `prefix` in the first line that begins with it.
pub fn value_of(s: &str, prefix: &str) -> (r: Option<String>)
    ensures
        opt_view(r) == first_value(lines(s@), prefix@),
{
    let ls = split_lines(s);
    let ghost all = views(ls@);
    let mut i: usize = 0;
    assert(all.skip(0) =~= all);
    while i < ls.len()
        invariant
            i <= ls@.len(),
            all == views(ls@),
            first_value(all, prefix@) == first_value(all.skip(i as int), prefix@),
            all == lines(s@),
        decreases ls@.len() - i,
    {
        assert(all.skip(i as int)[0] == ls@[i as int]@);
        assert(all.skip(i as int).skip(1) =~= all.skip(i + 1));
        if let Some(v) = strip_prefix(ls[i].as_str(), prefix) {
            return Some(v);
        }
        i = i + 1;
    }
    None
}

pub open spec fn flannel_verdict(out: Reply<String>) -> VerdictView {
    match out {
        Reply::Unavailable(e) => Err(e@),
        Reply::Failed(e) => Err("exec failed: "@ + e@),
        Reply::Got(s) => if has_sub(s@, "FLANNEL_NETWORK"@) {
            Ok(
                Some(
                    "embedded, "@ + match first_value(lines(s@), "FLANNEL_NETWORK="@) {
                        Some(n) => n,
                        None => "configured"@,
                    },
                ),
            )
        } else {
            Err("flannel subnet not configured"@)
        },
    }
}

/// Whether Flannel has a subnet, given its environment file.
pub fn check_flannel_subnet(out: &Reply<String>) -> (r: Verdict)
    ensures
        verdict(r) == flannel_verdict(*out),
{
    match out {
        Reply::Unavailable(e) => Err(e.clone()),
        Reply::Failed(e) => failed_with("exec failed: ", e.as_str()),
        Reply::Got(s) => if contains(s.as_str(), "FLANNEL_NETWORK") {
            let mut m = "embedded, ".to_owned();
            match value_of(s.as_str(), "FLANNEL_NETWORK=") {
                Some(n) => m.append(n.as_str()),
                None => m.append("configured"),
            }
            Ok(Some(m))
        } else {
            failed("flannel subnet not configured")
        },
    }
}

// ---------------------------------------------------------------------------
// Networking
// ---------------------------------------------------------------------------

/// A port that did not answer, as it is reported.
pub open spec fn port_label(label: Seq<char>, port: u16) -> Seq<char> {
    label + "("@ + decimal(port as nat) + ")"@
}

/// The core ports that did not answer.
pub open spec fn unreachable_ports(config: ClusterConfig, http: bool, https: bool, api: bool) -> Seq<
    Seq<char>,
> {
    let a = if http {
        Seq::<Seq<char>>::empty()
    } else {
        Seq::<Seq<char>>::empty().push(port_label("HTTP"@, config.http_port))
    };
    let b = if https {
        a
    } else {
        a.push(port_label("HTTPS"@, config.https_port))
    };
    if api {
        b
    } else {
        b.push(port_label("K8s API"@, config.api_port))
    }
}

pub open spec fn host_ports_verdict(config: ClusterConfig, http: bool, https: bool, api: bool) -> VerdictView {
    let down = unreachable_ports(config, http, https, api);
    if down.len() == 0 {
        Ok(Some(decimal(3) + " port(s) reachable"@))
    } else {
        Err("unreachable: "@ + joined(down, ", "@))
    }
}

fn push_port(down: &mut Vec<String>, label: &str, port: u16)
    ensures
        views(final(down)@) == views(old(down)@).push(port_label(label@, port)),
{
    let mut s = label.to_owned();
    s.append("(");
    s.append(u64_text(port as u64).as_str());
    s.append(")");
    proof {
        lemma_views_push(down@, s);
    }
    down.push(s);
}

/// Whether the HTTP, HTTPS and API ports of the host accept connections.
pub fn check_host_ports(config: &ClusterConfig, http: bool, https: bool, api: bool) -> (r: Verdict)
    ensures
        verdict(r) == host_ports_verdict(*config, http, https, api),
{
    let mut down: Vec<String> = Vec::new();
    assert(views(down@) =~= Seq::<Seq<char>>::empty());
    if !http {
        push_port(&mut down, "HTTP", config.http_port);
    }
    if !https {
        push_port(&mut down, "HTTPS", config.https_port);
    }
    if !api {
        push_port(&mut down, "K8s API", config.api_port);
    }
    assert(views(down@).len() == down@.len());
    if down.len() == 0 {
        let mut s = u64_text(3);
        s.append(" port(s) reachable");
        Ok(Some(s))
    } else {
        let j = join(&down, ", ");
        failed_with("unreachable: ", j.as_str())
    }
}

pub open spec fn ingress_configured_verdict(routes: Result<usize, String>) -> VerdictView {
    match routes {
        Err(e) => Err("failed to query ingress: "@ + e@),
        Ok(n) => if n == 0 {
            Err("no ingress routes found"@)
        } else {
            Ok(Some(decimal(n as nat) + " route(s)"@))
        },
    }
}

/// Whether there are ingress routes, given how many hosts have any.
pub fn check_ingress_configured(routes: &Result<usize, String>) -> (r: Verdict)
    ensures
        verdict(r) == ingress_configured_verdict(*routes),
{
    match routes {
        Err(e) => failed_with("failed to query ingress: ", e.as_str()),
        Ok(n) => if *n == 0 {
            failed("no ingress routes found")
        } else {
            let mut s = u64_text(*n as u64);
            s.append(" route(s)");
            Ok(Some(s))
        },
    }
}

pub open spec fn hosts_verdict(missing: Result<Vec<String>, String>) -> VerdictView {
    match missing {
        Err(e) => Err("failed to check hosts: "@ + e@),
        Ok(v) => if v@.len() == 0 {
            Ok(None)
        } else {
            Err("missing: "@ + truncated(views(v@), 3))
        },
    }
}

/// Whether the hosts file knows all ingress hosts.
pub fn check_hosts_uptodate(missing: &Result<Vec<String>, String>) -> (r: Verdict)
    ensures
        verdict(r) == hosts_verdict(*missing),
{
    match missing {
        Err(e) => failed_with("failed to check hosts: ", e.as_str()),
        Ok(v) => if v.len() == 0 {
            Ok(None)
        } else {
            let t = truncated_list(v, 3);
            failed_with("missing: ", t.as_str())
        },
    }
}

/// The endpoints in error.
pub open spec fn unhealthy(health: Seq<(String, IngressHealthStatus)>) -> Seq<Seq<char>>
    decreases health.len(),
{
    if health.len() == 0 {
        Seq::empty()
    } else if health.last().1 == IngressHealthStatus::Error {
        unhealthy(health.drop_last()).push(health.last().0@)
    } else {
        unhealthy(health.drop_last())
    }
}

/// What the list of ingress entries alone decides: the failure where there are none to check.
pub open spec fn ingress_entries_failure(entries: Result<usize, String>) -> Option<Seq<char>> {
    match entries {
        Err(e) => Some("failed to query ingress: "@ + e@),
        Ok(n) => if n == 0 {
            Some("no ingress entries to check"@)
        } else {
            None
        },
    }
}

/// Whether there are ingress entries to check: the reason if there are not.
pub fn check_ingress_entries(entries: &Result<usize, String>) -> (r: Option<String>)
    ensures
        opt_view(r) == ingress_entries_failure(*entries),
{
    match entries {
        Err(e) => {
            let mut s = "failed to query ingress: ".to_owned();
            s.append(e.as_str());
            Some(s)
        },
        Ok(n) => if *n == 0 {
            Some("no ingress entries to check".to_owned())
        } else {
            None
        },
    }
}

pub open spec fn ingress_health_verdict(health: Seq<(String, IngressHealthStatus)>) -> VerdictView {
    if unhealthy(health).len() == 0 {
        Ok(Some(decimal(health.len()) + " endpoint(s)"@))
    } else {
        Err("unhealthy: "@ + truncated(unhealthy(health), 3))
    }
}

/// Whether all ingress endpoints answer without an error.
pub fn check_ingress_health(health: &Vec<(String, IngressHealthStatus)>) -> (r: Verdict)
    ensures
        verdict(r) == ingress_health_verdict(health@),
{
    let mut bad: Vec<String> = Vec::new();
    let mut i: usize = 0;
    while i < health.len()
        invariant
            i <= health@.len(),
            views(bad@) =~= unhealthy(health@.take(i as int)),
        decreases health@.len() - i,
    {
        assert(health@.take(i + 1).drop_last() =~= health@.take(i as int));
        if health[i].1 == IngressHealthStatus::Error {
            bad.push(health[i].0.clone());
        }
        i = i + 1;
    }
    assert(health@.take(i as int) =~= health@);
    assert(views(bad@).len() == bad@.len());
    if bad.len() == 0 {
        let mut s = u64_text(health.len() as u64);
        s.append(" endpoint(s)");
        Ok(Some(s))
    } else {
        let t = truncated_list(&bad, 3);
        failed_with("unhealthy: ", t.as_str())
    }
}

// ---------------------------------------------------------------------------
// Pods
// ---------------------------------------------------------------------------

pub open spec fn stuck_pods_verdict(names: Reply<Vec<String>>) -> VerdictView {
    match names {
        Reply::Unavailable(e) => Err("client init failed: "@ + e@),
        Reply::Failed(e) => Err("failed to list pods: "@ + e@),
        Reply::Got(v) => if v@.len() == 0 {
            Ok(None)
        } else {
            Err("stuck: "@ + truncated(views(v@), 3))
        },
    }
}

/// Whether no pod is pending, given the names of those that are.
pub fn check_no_stuck_pods(names: &Reply<Vec<String>>) -> (r: Verdict)
    ensures
        verdict(r) == stuck_pods_verdict(*names),
{
    match names {
        Reply::Unavailable(e) => failed_with("client init failed: ", e.as_str()),
        Reply::Failed(e) => failed_with("failed to list pods: ", e.as_str()),
        Reply::Got(v) => if v.len() == 0 {
            Ok(None)
        } else {
            let t = truncated_list(v, 3);
            failed_with("stuck: ", t.as_str())
        },
    }
}

/// Whether a reason says that an image could not be pulled.
pub open spec fn pull_error(reason: Seq<char>) -> bool {
    reason == "ImagePullBackOff"@ || reason == "ErrImagePull"@
}

/// Whether some container of a pod could not pull its image.
pub open spec fn has_pull_error(p: WaitingPod) -> bool {
    exists|i: int| 0 <= i < p.reasons@.len() && pull_error((#[trigger] p.reasons@[i])@)
}

/// The pods with an image that could not be pulled.
pub open spec fn pull_errors(pods: Seq<WaitingPod>) -> Seq<Seq<char>>
    decreases pods.len(),
{
    if pods.len() == 0 {
        Seq::empty()
    } else if has_pull_error(pods.last()) {
        pull_errors(pods.drop_last()).push(pods.last().name@)
    } else {
        pull_errors(pods.drop_last())
    }
}

/// The first three texts, or all of them.
pub open spec fn first_three(items: Seq<Seq<char>>) -> Seq<Seq<char>> {
    if items.len() > 3 {
        items.take(3)
    } else {
        items
    }
}

pub open spec fn pull_errors_verdict(pods: Reply<Vec<WaitingPod>>) -> VerdictView {
    match pods {
        Reply::Unavailable(e) => Err("client init failed: "@ + e@),
        Reply::Failed(e) => Err("failed to list pods: "@ + e@),
        Reply::Got(v) => if pull_errors(v@).len() == 0 {
            Ok(None)
        } else {
            Err("pull errors: "@ + joined(first_three(pull_errors(v@)), ", "@))
        },
    }
}

fn pod_has_pull_error(p: &WaitingPod) -> (r: bool)
    ensures
        r == has_pull_error(*p),
{
    let mut i: usize = 0;
    while i < p.reasons.len()
        invariant
            i <= p.reasons@.len(),
            forall|j: int| 0 <= j < i ==> !pull_error((#[trigger] p.reasons@[j])@),
        decreases p.reasons@.len() - i,
    {
        let s = p.reasons[i].as_str();
        assert(p.reasons@[i as int]@ == s@);
        if same(s, "ImagePullBackOff") || same(s, "ErrImagePull") {
            assert(pull_error(p.reasons@[i as int]@));
            return true;
        }
        i = i + 1;
    }
    false
}

/// Whether no pending pod waits for an image that cannot be pulled.
pub fn check_no_pull_errors(pods: &Reply<Vec<WaitingPod>>) -> (r: Verdict)
    ensures
        verdict(r) == pull_errors_verdict(*pods),
{
    match pods {
        Reply::Unavailable(e) => failed_with("client init failed: ", e.as_str()),
        Reply::Failed(e) => failed_with("failed to list pods: ", e.as_str()),
        Reply::Got(v) => {
            let mut names: Vec<String> = Vec::new();
            let mut i: usize = 0;
            while i < v.len()
                invariant
                    i <= v@.len(),
                    views(names@) =~= pull_errors(v@.take(i as int)),
                decreases v@.len() - i,
            {
                assert(v@.take(i + 1).drop_last() =~= v@.take(i as int));
                if pod_has_pull_error(&v[i]) {
                    names.push(v[i].name.clone());
                }
                i = i + 1;
            }
            assert(v@.take(i as int) =~= v@);
            assert(views(names@).len() == names@.len());
            if names.len() == 0 {
                Ok(None)
            } else {
                let shown = first_of(&names, 3);
                assert(views(shown@) =~= first_three(views(names@)));
                let j = join(&shown, ", ");
                failed_with("pull errors: ", j.as_str())
            }
        },
    }
}

/// Whether some text of `problems` holds `pat`.
pub open spec fn mentioned(problems: Seq<Seq<char>>, pat: Seq<char>) -> bool {
    exists|i: int| 0 <= i < problems.len() && has_sub(#[trigger] problems[i], pat)
}

/// The problems after one more container of a pod: it waits in a crash loop, it was ended by an
/// error or for want of memory, or it was restarted more than ten times and is not mentioned yet.
pub open spec fn with_container(
    problems: Seq<Seq<char>>,
    ns: Seq<char>,
    pod: Seq<char>,
    c: ContainerState,
) -> Seq<Seq<char>> {
    let who = ns + "/"@ + pod + ": "@;
    let a = if opt_view(c.waiting_reason) == Some("CrashLoopBackOff"@) {
        problems.push(who + "CrashLoopBackOff"@)
    } else {
        problems
    };
    let b = match c.terminated_reason {
        Some(t) => if t@ == "OOMKilled"@ || t@ == "Error"@ {
            a.push(who + t@)
        } else {
            a
        },
        None => a,
    };
    if c.restart_count > 10 && !mentioned(b, pod) {
        b.push(who + decimal(c.restart_count as nat) + " restarts"@)
    } else {
        b
    }
}

/// The problems after the containers of one more pod.
pub open spec fn with_containers(
    problems: Seq<Seq<char>>,
    ns: Seq<char>,
    pod: Seq<char>,
    containers: Seq<ContainerState>,
) -> Seq<Seq<char>>
    decreases containers.len(),
{
    if containers.len() == 0 {
        problems
    } else {
        with_container(
            with_containers(problems, ns, pod, containers.drop_last()),
            ns,
            pod,
            containers.last(),
        )
    }
}

/// The problems of a list of pods, in order.
pub open spec fn pod_problems(pods: Seq<PodStates>) -> Seq<Seq<char>>
    decreases pods.len(),
{
    if pods.len() == 0 {
        Seq::empty()
    } else {
        with_containers(
            pod_problems(pods.drop_last()),
            pods.last().namespace@,
            pods.last().name@,
            pods.last().containers@,
        )
    }
}

pub open spec fn crash_loops_verdict(pods: Seq<PodStates>) -> VerdictView {
    if pod_problems(pods).len() == 0 {
        Ok(None)
    } else {
        Err(joined(first_three(pod_problems(pods)), ", "@))
    }
}

fn is_mentioned(problems: &Vec<String>, pat: &str) -> (r: bool)
    ensures
        r == mentioned(views(problems@), pat@),
{
    let ghost all = views(problems@);
    let mut i: usize = 0;
    while i < problems.len()
        invariant
            i <= problems@.len(),
            all == views(problems@),
            forall|j: int| 0 <= j < i ==> !has_sub(#[trigger] all[j], pat@),
        decreases problems@.len() - i,
    {
        assert(all[i as int] == problems@[i as int]@);
        if contains(problems[i].as_str(), pat) {
            return true;
        }
        i = i + 1;
    }
    false
}

fn push_problem(problems: &mut Vec<String>, ns: &str, pod: &str, what: &str)
    ensures
        views(final(problems)@) == views(old(problems)@).push(ns@ + "/"@ + pod@ + ": "@ + what@),
{
    let mut s = ns.to_owned();
    s.append("/");
    s.append(pod);
    s.append(": ");
    s.append(what);
    proof {
        lemma_views_push(problems@, s);
    }
    problems.push(s);
}

fn add_container(problems: &mut Vec<String>, ns: &str, pod: &str, c: &ContainerState)
    ensures
        views(final(problems)@) == with_container(views(old(problems)@), ns@, pod@, *c),
{
    if crate::text::opt_is(&c.waiting_reason, "CrashLoopBackOff") {
        push_problem(problems, ns, pod, "CrashLoopBackOff");
    }
    if let Some(t) = &c.terminated_reason {
        if same(t.as_str(), "OOMKilled") || same(t.as_str(), "Error") {
            push_problem(problems, ns, pod, t.as_str());
        }
    }
    if c.restart_count > 10 && !is_mentioned(problems, pod) {
        let mut what = u64_text(c.restart_count as u64);
        what.append(" restarts");
        assert(ns@ + "/"@ + pod@ + ": "@ + (decimal(c.restart_count as nat) + " restarts"@) =~= ns@
            + "/"@ + pod@ + ": "@ + decimal(c.restart_count as nat) + " restarts"@);
        push_problem(problems, ns, pod, what.as_str());
    }
}

fn add_pod(problems: &mut Vec<String>, p: &PodStates)
    ensures
        views(final(problems)@) == with_containers(
            views(old(problems)@),
            p.namespace@,
            p.name@,
            p.containers@,
        ),
{
    let ghost before = views(problems@);
    let mut i: usize = 0;
    while i < p.containers.len()
        invariant
            i <= p.containers@.len(),
            views(problems@) == with_containers(
                before,
                p.namespace@,
                p.name@,
                p.containers@.take(i as int),
            ),
        decreases p.containers@.len() - i,
    {
        assert(p.containers@.take(i + 1).drop_last() =~= p.containers@.take(i as int));
        add_container(problems, p.namespace.as_str(), p.name.as_str(), &p.containers[i]);
        i = i + 1;
    }
    assert(p.containers@.take(i as int) =~= p.containers@);
}

/// Whether no pod of the cluster crashes again and again.
pub fn check_no_crash_loops(pods: &Vec<PodStates>) -> (r: Verdict)
    ensures
        verdict(r) == crash_loops_verdict(pods@),
{
    let mut problems: Vec<String> = Vec::new();
    let mut i: usize = 0;
    assert(views(problems@) =~= pod_problems(pods@.take(0)));
    while i < pods.len()
        invariant
            i <= pods@.len(),
            views(problems@) == pod_problems(pods@.take(i as int)),
        decreases pods@.len() - i,
    {
        assert(pods@.take(i + 1).drop_last() =~= pods@.take(i as int));
        add_pod(&mut problems, &pods[i]);
        i = i + 1;
    }
    assert(pods@.take(i as int) =~= pods@);
    assert(views(problems@).len() == problems@.len());
    if problems.len() == 0 {
        Ok(None)
    } else {
        let shown = first_of(&problems, 3);
        assert(views(shown@) =~= first_three(views(problems@)));
        Err(truncated_list(&shown, 3))
    }
}

/// Whether a condition says that a node is under pressure.
pub open spec fn under_pressure(c: NodeCondition) -> bool {
    (c.kind@ == "MemoryPressure"@ || c.kind@ == "DiskPressure"@ || c.kind@ == "PIDPressure"@)
        && c.status@ == "True"@
}

/// The pressure conditions, with the nodes that report them.
pub open spec fn pressures(conditions: Seq<NodeCondition>) -> Seq<Seq<char>>
    decreases conditions.len(),
{
    if conditions.len() == 0 {
        Seq::empty()
    } else {
        let rest = pressures(conditions.drop_last());
        let c = conditions.last();
        if under_pressure(c) {
            rest.push(
                (match c.node {
                    Some(n) => n@,
                    None => "unknown"@,
                }) + ": "@ + c.kind@,
            )
        } else {
            rest
        }
    }
}

pub open spec fn node_conditions_verdict(conditions: Reply<Vec<NodeCondition>>) -> VerdictView {
    match conditions {
        Reply::Unavailable(e) => Err("client init failed: "@ + e@),
        Reply::Failed(e) => Err("failed to list nodes: "@ + e@),
        Reply::Got(v) => if pressures(v@).len() == 0 {
            Ok(Some("no pressure conditions"@))
        } else {
            Err("pressure: "@ + joined(pressures(v@), ", "@))
        },
    }
}

/// Whether no node is short of memory, disk or process ids.
pub fn check_node_conditions(conditions: &Reply<Vec<NodeCondition>>) -> (r: Verdict)
    ensures
        verdict(r) == node_conditions_verdict(*conditions),
{
    match conditions {
        Reply::Unavailable(e) => failed_with("client init failed: ", e.as_str()),
        Reply::Failed(e) => failed_with("failed to list nodes: ", e.as_str()),
        Reply::Got(v) => {
            let mut warnings: Vec<String> = Vec::new();
            let mut i: usize = 0;
            while i < v.len()
                invariant
                    i <= v@.len(),
                    views(warnings@) =~= pressures(v@.take(i as int)),
                decreases v@.len() - i,
            {
                assert(v@.take(i + 1).drop_last() =~= v@.take(i as int));
                let c = &v[i];
                if (same(c.kind.as_str(), "MemoryPressure") || same(c.kind.as_str(), "DiskPressure")
                    || same(c.kind.as_str(), "PIDPressure")) && same(c.status.as_str(), "True") {
                    let mut s = match &c.node {
                        Some(n) => n.clone(),
                        None => "unknown".to_owned(),
                    };
                    s.append(": ");
                    s.append(c.kind.as_str());
                    warnings.push(s);
                }
                i = i + 1;
            }
            assert(v@.take(i as int) =~= v@);
            assert(views(warnings@).len() == warnings@.len());
            if warnings.len() == 0 {
                passed("no pressure conditions")
            } else {
                let j = join(&warnings, ", ");
                failed_with("pressure: ", j.as_str())
            }
        },
    }
}

// ---------------------------------------------------------------------------
// Laws
// ---------------------------------------------------------------------------

/// What has to be there passes exactly where it was found; without an answer it does not.
pub proof fn law_present_things_pass(found: Result<bool, String>, missing: Seq<char>, name: Seq<char>)
    ensures
        presence_verdict(found, missing) is Ok <==> found == Ok::<bool, String>(true),
        container_running_verdict(found, name) is Ok <==> found == Ok::<bool, String>(true),
        api_verdict(found) is Ok <==> found == Ok::<bool, String>(true),
        traefik_verdict(found is Ok && found->Ok_0) is Ok <==> found == Ok::<bool, String>(true),
        found matches Ok(false) ==> presence_verdict(found, missing) == Err::<
            Option<Seq<char>>,
            Seq<char>,
        >(missing),
{
}

proof fn lemma_not_ready(nodes: Seq<NodeStatus>)
    ensures
        not_ready(nodes).len() == 0 <==> forall|i: int|
            0 <= i < nodes.len() ==> (#[trigger] nodes[i]).status@ == "Ready"@,
    decreases nodes.len(),
{
    if nodes.len() > 0 {
        let d = nodes.drop_last();
        lemma_not_ready(d);
        assert forall|i: int| 0 <= i < d.len() implies #[trigger] d[i] == nodes[i] by {}
        assert(nodes[nodes.len() - 1] == nodes.last());
        if not_ready(nodes).len() == 0 {
            assert forall|i: int| 0 <= i < nodes.len() implies (#[trigger] nodes[i]).status@
                == "Ready"@ by {
                if i < d.len() {
                    assert(d[i] == nodes[i]);
                }
            }
        }
    }
}

/// The nodes pass exactly where there are some and all of them are ready.
pub proof fn law_all_nodes_are_ready(nodes: Result<Vec<NodeStatus>, String>)
    ensures
        nodes_verdict(nodes) is Ok <==> (nodes matches Ok(v) && v@.len() > 0 && forall|i: int|
            0 <= i < v@.len() ==> (#[trigger] v@[i]).status@ == "Ready"@),
{
    if let Ok(v) = nodes {
        lemma_not_ready(v@);
    }
}

/// A container that was restarted more than five times fails, and no other of which something is
/// known does.
pub proof fn law_restarts_fail(state: Reply<(Option<i64>, Option<String>)>)
    ensures
        container_health_verdict(state) is Ok <==> (state matches Reply::Got(s) && (s.0 is None
            || s.0->0 <= 5)),
{
}

/// Architectures fail exactly where both are known to this program and differ.
pub proof fn law_other_architectures_fail(a: Option<String>, binary: Seq<char>, macos: bool)
    ensures
        arch_verdict(Reply::Got(a), binary, macos) is Err ==> (a matches Some(d) && d@ != binary),
        a matches Some(d) ==> (d@ == binary ==> arch_verdict(Reply::Got(a), binary, macos) is Ok),
        a matches Some(d) ==> (binary == "x86_64"@ && d@ == "aarch64"@ ==> arch_verdict(
            Reply::Got(a),
            binary,
            macos,
        ) is Err),
        a matches Some(d) ==> (binary == "aarch64"@ && d@ == "x86_64"@ ==> arch_verdict(
            Reply::Got(a),
            binary,
            macos,
        ) is Err),
{
    reveal_strlit("x86_64");
    reveal_strlit("aarch64");
    reveal_strlit("unknown");
    assert("x86_64"@.len() == 6 && "aarch64"@.len() == 7 && "unknown"@[0] == 'u');
    assert("aarch64"@[0] == 'a');
}

proof fn lemma_running_count(statuses: Seq<Seq<char>>)
    ensures
        running_count(statuses) > 0 <==> statuses.contains("Running"@),
        running_count(statuses) <= statuses.len(),
    decreases statuses.len(),
{
    if statuses.len() > 0 {
        let d = statuses.drop_last();
        lemma_running_count(d);
        assert(statuses[statuses.len() - 1] == statuses.last());
        if d.contains("Running"@) {
            let i = choose|i: int| 0 <= i < d.len() && d[i] == "Running"@;
            assert(statuses[i] == "Running"@);
        }
        if statuses.contains("Running"@) && statuses.last() != "Running"@ {
            let i = choose|i: int| 0 <= i < statuses.len() && statuses[i] == "Running"@;
            assert(d[i] == "Running"@);
        }
    }
}

/// A service passes exactly where its pods could be listed and one of them runs.
pub proof fn law_services_need_a_running_pod(pods: Reply<Vec<String>>)
    ensures
        coredns_verdict(pods) is Ok <==> (pods matches Reply::Got(v) && views(v@).contains(
            "Running"@,
        )),
        provisioner_verdict(pods) is Ok <==> coredns_verdict(pods) is Ok,
{
    if let Reply::Got(v) = pods {
        lemma_running_count(views(v@));
    }
}

/// The network passes exactly where its configuration was found, blanks aside, and then names its
/// subnet.
pub proof fn law_network_needs_its_subnet(config: Reply<String>, subnet: Reply<String>)
    ensures
        flannel_config_failure(config) is None <==> (config matches Reply::Got(s) && trimmed(s@)
            == "ok"@),
        flannel_verdict(subnet) is Ok <==> (subnet matches Reply::Got(s) && has_sub(
            s@,
            "FLANNEL_NETWORK"@,
        )),
{
}

/// The ports of this machine pass exactly where all three answer; each that does not is named.
pub proof fn law_all_ports_answer(config: ClusterConfig, http: bool, https: bool, api: bool)
    ensures
        host_ports_verdict(config, http, https, api) is Ok <==> http && https && api,
        unreachable_ports(config, http, https, api).contains(port_label("HTTP"@, config.http_port))
            || http,
        unreachable_ports(config, http, https, api).contains(
            port_label("HTTPS"@, config.https_port),
        ) || https,
        unreachable_ports(config, http, https, api).contains(
            port_label("K8s API"@, config.api_port),
        ) || api,
{
    let u = unreachable_ports(config, http, https, api);
    if !http {
        assert(u[0] == port_label("HTTP"@, config.http_port));
    }
    if !https {
        let i: int = if http {
            0
        } else {
            1
        };
        assert(u[i] == port_label("HTTPS"@, config.https_port));
    }
    if !api {
        assert(u[u.len() - 1] == port_label("K8s API"@, config.api_port));
    }
}

/// Ingresses pass where there are any, the hosts file where no host is missing, and pending pods where
/// there are none.
pub proof fn law_lists_decide(
    routes: Result<usize, String>,
    missing: Result<Vec<String>, String>,
    names: Reply<Vec<String>>,
)
    ensures
        ingress_configured_verdict(routes) is Ok <==> (routes matches Ok(n) && n > 0),
        ingress_entries_failure(routes) is None <==> (routes matches Ok(n) && n > 0),
        hosts_verdict(missing) is Ok <==> (missing matches Ok(v) && v@.len() == 0),
        stuck_pods_verdict(names) is Ok <==> (names matches Reply::Got(v) && v@.len() == 0),
{
}

/// Endpoints pass exactly where none is in error.
pub proof fn law_endpoints_in_error_fail(health: Seq<(String, IngressHealthStatus)>)
    ensures
        ingress_health_verdict(health) is Ok <==> forall|i: int|
            0 <= i < health.len() ==> (#[trigger] health[i]).1 != IngressHealthStatus::Error,
    decreases health.len(),
{
    if health.len() > 0 {
        let d = health.drop_last();
        law_endpoints_in_error_fail(d);
        assert(health[health.len() - 1] == health.last());
        assert forall|i: int| 0 <= i < d.len() implies #[trigger] d[i] == health[i] by {}
        if unhealthy(health).len() == 0 {
            assert forall|i: int| 0 <= i < health.len() implies (#[trigger] health[i]).1
                != IngressHealthStatus::Error by {
                if i < d.len() {
                    assert(d[i] == health[i]);
                }
            }
        }
    }
}

proof fn lemma_pull_errors(pods: Seq<WaitingPod>)
    ensures
        pull_errors(pods).len() == 0 <==> forall|i: int|
            0 <= i < pods.len() ==> !has_pull_error(#[trigger] pods[i]),
    decreases pods.len(),
{
    if pods.len() > 0 {
        let d = pods.drop_last();
        lemma_pull_errors(d);
        assert(pods[pods.len() - 1] == pods.last());
        assert forall|i: int| 0 <= i < d.len() implies #[trigger] d[i] == pods[i] by {}
        if pull_errors(pods).len() == 0 {
            assert forall|i: int| 0 <= i < pods.len() implies !has_pull_error(
                #[trigger] pods[i],
            ) by {
                if i < d.len() {
                    assert(d[i] == pods[i]);
                }
            }
        }
    }
}

/// Pods that wait pass exactly where no container of any of them waits for an image that cannot be
/// pulled.
pub proof fn law_images_can_be_pulled(pods: Seq<WaitingPod>, v: Vec<WaitingPod>)
    requires
        v@ == pods,
    ensures
        pull_errors_verdict(Reply::Got(v)) is Ok <==> forall|i: int, j: int|
            0 <= i < pods.len() && 0 <= j < pods[i].reasons@.len() ==> (
            #[trigger] pods[i].reasons@[j])@ != "ImagePullBackOff"@ && pods[i].reasons@[j]@
                != "ErrImagePull"@,
{
    lemma_pull_errors(pods);
    if pull_errors_verdict(Reply::Got(v)) is Ok {
        assert forall|i: int, j: int|
            0 <= i < pods.len() && 0 <= j < pods[i].reasons@.len() implies (
        #[trigger] pods[i].reasons@[j])@ != "ImagePullBackOff"@ && pods[i].reasons@[j]@
            != "ErrImagePull"@ by {
            assert(!has_pull_error(pods[i]));
            assert(!pull_error(pods[i].reasons@[j]@));
        }
    }
    if forall|i: int, j: int|
        0 <= i < pods.len() && 0 <= j < pods[i].reasons@.len() ==> (#[trigger] pods[i].reasons@[j])@
            != "ImagePullBackOff"@ && pods[i].reasons@[j]@ != "ErrImagePull"@ {
        assert forall|i: int| 0 <= i < pods.len() implies !has_pull_error(#[trigger] pods[i]) by {
            if has_pull_error(pods[i]) {
                let j = choose|j: int|
                    0 <= j < pods[i].reasons@.len() && pull_error((
                    #[trigger] pods[i].reasons@[j])@);
                assert(pods[i].reasons@[j]@ != "ImagePullBackOff"@);
            }
        }
    }
}

/// Whether a container gives no cause for complaint: it does not wait in a crash loop, was not ended
/// by an error or for want of memory, and was restarted ten times at most.
pub open spec fn sound(c: ContainerState) -> bool {
    &&& opt_view(c.waiting_reason) != Some("CrashLoopBackOff"@)
    &&& opt_view(c.terminated_reason) != Some("OOMKilled"@)
    &&& opt_view(c.terminated_reason) != Some("Error"@)
    &&& c.restart_count <= 10
}

proof fn lemma_with_container(problems: Seq<Seq<char>>, ns: Seq<char>, pod: Seq<char>, c: ContainerState)
    ensures
        with_container(problems, ns, pod, c).len() == 0 <==> problems.len() == 0 && sound(c),
        with_container(problems, ns, pod, c).len() >= problems.len(),
{
}

proof fn lemma_with_containers(
    problems: Seq<Seq<char>>,
    ns: Seq<char>,
    pod: Seq<char>,
    cs: Seq<ContainerState>,
)
    ensures
        with_containers(problems, ns, pod, cs).len() == 0 <==> problems.len() == 0 && forall|i: int|
            0 <= i < cs.len() ==> sound(#[trigger] cs[i]),
    decreases cs.len(),
{
    if cs.len() > 0 {
        let d = cs.drop_last();
        lemma_with_containers(problems, ns, pod, d);
        lemma_with_container(with_containers(problems, ns, pod, d), ns, pod, cs.last());
        assert(cs[cs.len() - 1] == cs.last());
        assert forall|i: int| 0 <= i < d.len() implies #[trigger] d[i] == cs[i] by {}
        if with_containers(problems, ns, pod, cs).len() == 0 {
            assert forall|i: int| 0 <= i < cs.len() implies sound(#[trigger] cs[i]) by {
                if i < d.len() {
                    assert(sound(d[i]));
                }
            }
        }
    }
}

/// The pods pass exactly where no container of any of them gives cause for complaint.
pub proof fn law_sound_pods_pass(pods: Seq<PodStates>)
    ensures
        crash_loops_verdict(pods) is Ok <==> forall|i: int, j: int|
            0 <= i < pods.len() && 0 <= j < pods[i].containers@.len() ==> sound(
                #[trigger] pods[i].containers@[j],
            ),
    decreases pods.len(),
{
    if pods.len() > 0 {
        let d = pods.drop_last();
        let p = pods.last();
        law_sound_pods_pass(d);
        lemma_with_containers(pod_problems(d), p.namespace@, p.name@, p.containers@);
        assert(pods[pods.len() - 1] == p);
        assert forall|i: int| 0 <= i < d.len() implies #[trigger] d[i] == pods[i] by {}
        if crash_loops_verdict(pods) is Ok {
            assert forall|i: int, j: int|
                0 <= i < pods.len() && 0 <= j < pods[i].containers@.len() implies sound(
                #[trigger] pods[i].containers@[j],
            ) by {
                if i < d.len() {
                    assert(d[i] == pods[i]);
                    assert(sound(d[i].containers@[j]));
                }
            }
        }
        if forall|i: int, j: int|
            0 <= i < pods.len() && 0 <= j < pods[i].containers@.len() ==> sound(
                #[trigger] pods[i].containers@[j],
            ) {
            assert forall|i: int, j: int|
                0 <= i < d.len() && 0 <= j < d[i].containers@.len() implies sound(
                #[trigger] d[i].containers@[j],
            ) by {
                assert(d[i] == pods[i]);
                assert(sound(pods[i].containers@[j]));
            }
            assert forall|j: int| 0 <= j < p.containers@.len() implies sound(
                #[trigger] p.containers@[j],
            ) by {
                assert(sound(pods[pods.len() - 1].containers@[j]));
            }
        }
    }
}

/// The nodes pass exactly where none reports that it is short of memory, disk or process ids.
pub proof fn law_nodes_under_pressure_fail(cs: Seq<NodeCondition>, v: Vec<NodeCondition>)
    requires
        v@ == cs,
    ensures
        node_conditions_verdict(Reply::Got(v)) is Ok <==> forall|i: int|
            0 <= i < cs.len() ==> (#[trigger] cs[i]).status@ != "True"@ || (cs[i].kind@
                != "MemoryPressure"@ && cs[i].kind@ != "DiskPressure"@ && cs[i].kind@
                != "PIDPressure"@),
{
    lemma_pressures(cs);
}

proof fn lemma_pressures(cs: Seq<NodeCondition>)
    ensures
        pressures(cs).len() == 0 <==> forall|i: int|
            0 <= i < cs.len() ==> (#[trigger] cs[i]).status@ != "True"@ || (cs[i].kind@
                != "MemoryPressure"@ && cs[i].kind@ != "DiskPressure"@ && cs[i].kind@
                != "PIDPressure"@),
    decreases cs.len(),
{
    if cs.len() > 0 {
        let d = cs.drop_last();
        lemma_pressures(d);
        assert(cs[cs.len() - 1] == cs.last());
        assert forall|i: int| 0 <= i < d.len() implies #[trigger] d[i] == cs[i] by {}
        if pressures(cs).len() == 0 {
            assert forall|i: int| 0 <= i < cs.len() implies (#[trigger] cs[i]).status@ != "True"@
                || (cs[i].kind@ != "MemoryPressure"@ && cs[i].kind@ != "DiskPressure"@ && cs[i].kind@
                != "PIDPressure"@) by {
                if i < d.len() {
                    assert(d[i] == cs[i]);
                }
            }
        }
    }
}

/// What only informs never fails.
pub proof fn law_advice_never_fails(
    linux: bool,
    active: bool,
    profiles: Seq<char>,
    modules: Seq<char>,
    sysctl: Seq<char>,
)
    ensures
        apparmor_verdict(linux, active, profiles) is Ok,
        br_netfilter_verdict(linux, modules, sysctl) is Ok,
{
}

/// A list that is cut tells how many items it leaves out; one that is not shows them all.
pub proof fn law_cut_lists_tell_the_rest(items: Seq<Seq<char>>, max: nat)
    ensures
        items.len() <= max ==> truncated(items, max) == joined(items, ", "@),
        items.len() > max ==> crate::text::ends(
            truncated(items, max),
            " (+"@ + decimal((items.len() - max) as nat) + ")"@,
        ) && begins(truncated(items, max), joined(items.take(max as int), ", "@)),
{
    if items.len() > max {
        let a = joined(items.take(max as int), ", "@);
        let b = " (+"@ + decimal((items.len() - max) as nat) + ")"@;
        let s = truncated(items, max);
        assert(s.subrange(s.len() - b.len(), s.len() as int) =~= b);
        assert(s.subrange(0, a.len() as int) =~= a);
    }
}

/// The value that is found stands behind the prefix on a line before which none begins with it.
pub proof fn law_first_value_is_found(ls: Seq<Seq<char>>, prefix: Seq<char>, k: int)
    ensures
        first_value(ls, prefix) is None <==> forall|i: int|
            0 <= i < ls.len() ==> !begins(#[trigger] ls[i], prefix),
        0 <= k < ls.len() && begins(ls[k], prefix) && (forall|i: int|
            0 <= i < k ==> !begins(#[trigger] ls[i], prefix)) ==> (first_value(ls, prefix)
            matches Some(v) && ls[k] == prefix + v),
    decreases ls.len(),
{
    if ls.len() > 0 {
        let r = ls.skip(1);
        law_first_value_is_found(r, prefix, k - 1);
        assert forall|i: int| 0 <= i < r.len() implies #[trigger] r[i] == ls[i + 1] by {}
        if begins(ls[0], prefix) {
            assert(ls[0] =~= prefix + ls[0].skip(prefix.len() as int)) by {
                assert(ls[0].subrange(0, prefix.len() as int) == prefix);
                assert forall|i: int| 0 <= i < prefix.len() implies ls[0][i] == prefix[i] by {
                    assert(ls[0].subrange(0, prefix.len() as int)[i] == ls[0][i]);
                }
            }
        } else {
            if first_value(ls, prefix) is None {
                assert forall|i: int| 0 <= i < ls.len() implies !begins(#[trigger] ls[i], prefix) by {
                    if i > 0 {
                        assert(r[i - 1] == ls[i]);
                    }
                }
            } else if forall|i: int| 0 <= i < ls.len() ==> !begins(#[trigger] ls[i], prefix) {
                assert forall|i: int| 0 <= i < r.len() implies !begins(#[trigger] r[i], prefix) by {
                    assert(ls[i + 1] == r[i]);
                }
            }
            if 0 < k < ls.len() && begins(ls[k], prefix) && (forall|i: int|
                0 <= i < k ==> !begins(#[trigger] ls[i], prefix)) {
                assert(r[k - 1] == ls[k]);
                assert forall|i: int| 0 <= i < k - 1 implies !begins(#[trigger] r[i], prefix) by {
                    assert(ls[i + 1] == r[i]);
                }
            }
        }
    }
}

/// Advice tells what was found: nothing of this machine where it does not run Linux, and else whether
/// the profile is enforced and the module there.
pub proof fn law_advice_tells_what_was_found(
    active: bool,
    profiles: Seq<char>,
    modules: Seq<char>,
    sysctl: Seq<char>,
    i: int,
)
    ensures
        apparmor_verdict(false, active, profiles) == br_netfilter_verdict(false, modules, sysctl),
        apparmor_verdict(true, false, profiles) == Ok::<Option<Seq<char>>, Seq<char>>(
            Some("not active"@),
        ),
        0 <= i < lines(profiles).len() && has_sub(lines(profiles)[i], "docker-default"@) && has_sub(
            lines(profiles)[i],
            "(enforce)"@,
        ) ==> apparmor_verdict(true, true, profiles) == Ok::<Option<Seq<char>>, Seq<char>>(
            Some("active, docker-default enforcing (k3s uses unconfined)"@),
        ),
        0 <= i < lines(modules).len() && begins(lines(modules)[i], "br_netfilter "@) && trimmed(sysctl)
            == "1"@ ==> br_netfilter_verdict(true, modules, sysctl) == Ok::<
            Option<Seq<char>>,
            Seq<char>,
        >(Some("loaded, bridge-nf-call-iptables=1"@)),
        lines(modules).len() == 0 ==> br_netfilter_verdict(true, modules, sysctl) == Ok::<
            Option<Seq<char>>,
            Seq<char>,
        >(Some("not loaded (ok for Docker mode)"@)),
        lines(profiles).len() == 0 ==> apparmor_verdict(true, true, profiles) == Ok::<
            Option<Seq<char>>,
            Seq<char>,
        >(Some("active"@)),
{
}

} // verus!
