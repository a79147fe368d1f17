//! What is said of a cluster.

use vstd::prelude::*;
use crate::cluster::k3s::status::ClusterStatus;
use crate::cluster::kube_ops::{node_row, pod_row, row_of_node, row_of_pod, NodeInfo, PodInfo};
use crate::machine::{no_lines, silent};
use crate::output::{info, line_views, say, LineView, OutputLine};
use crate::text::views;

verus! {

/// The name of a status.
pub open spec fn status_name(s: ClusterStatus) -> Seq<char> {
    match s {
        ClusterStatus::Running => "Running"@,
        ClusterStatus::Stopped => "Stopped"@,
        ClusterStatus::Starting => "Starting"@,
        ClusterStatus::Paused => "Paused"@,
        ClusterStatus::NotCreated => "NotCreated"@,
        ClusterStatus::RuntimeNotRunning => "RuntimeNotRunning"@,
        ClusterStatus::Unknown => "Unknown"@,
    }
}

/// The name of a status.
pub fn name_of_status(s: ClusterStatus) -> (r: &'static str)
    ensures
        r@ == status_name(s),
{
    match s {
        ClusterStatus::Running => "Running",
        ClusterStatus::Stopped => "Stopped",
        ClusterStatus::Starting => "Starting",
        ClusterStatus::Paused => "Paused",
        ClusterStatus::NotCreated => "NotCreated",
        ClusterStatus::RuntimeNotRunning => "RuntimeNotRunning",
        ClusterStatus::Unknown => "Unknown",
    }
}

/// What the cluster says of itself; nothing of what could not be asked.
#[derive(Debug)]
pub struct ClusterFacts {
    pub version: Option<String>,
    pub nodes: Vec<NodeInfo>,
    pub namespaces: Vec<String>,
    pub system_pods: Vec<PodInfo>,
}

/// The rows of nodes.
pub open spec fn node_lines(v: Seq<NodeInfo>) -> Seq<LineView> {
    Seq::new(v.len(), |i: int| info(v[i].wide()))
}

/// The rows of namespaces.
pub open spec fn namespace_lines(v: Seq<Seq<char>>) -> Seq<LineView> {
    Seq::new(v.len(), |i: int| info("  "@ + v[i]))
}

/// The rows of pods.
pub open spec fn pod_lines(v: Seq<PodInfo>) -> Seq<LineView> {
    Seq::new(v.len(), |i: int| info(pod_row(v[i].name@, v[i].ready@, v[i].status@)))
}

/// What is said of a cluster: of one that does not run only its status.
pub open spec fn info_lines(status: ClusterStatus, f: ClusterFacts) -> Seq<LineView> {
    let head = silent().push(info("=== K3s Cluster Info ==="@)).push(
        info("Status: "@ + status_name(status)),
    );
    if status != ClusterStatus::Running {
        head
    } else {
        let versioned = match f.version {
            Some(v) => head.push(info(v@)),
            None => head,
        };
        let nodes = versioned.push(info("\n=== Nodes ==="@)).push(
            info(node_row("NAME"@, "STATUS"@, "ROLES"@, "INTERNAL-IP"@, "VERSION"@)),
        ) + node_lines(f.nodes@);
        let spaces = nodes.push(info("\n=== Namespaces ==="@)) + namespace_lines(
            views(f.namespaces@),
        );
        spaces.push(info("\n=== System Pods ==="@)).push(
            info(pod_row("NAME"@, "READY"@, "STATUS"@)),
        ) + pod_lines(f.system_pods@)
    }
}

fn say_nodes(lines: &mut Vec<OutputLine>, v: &Vec<NodeInfo>)
    ensures
        line_views(final(lines)@) == line_views(old(lines)@) + node_lines(v@),
{
    let ghost before = line_views(lines@);
    let ghost all = node_lines(v@);
    let mut i: usize = 0;
    assert(before + all.take(0) =~= before);
    while i < v.len()
        invariant
            i <= v@.len(),
            all == node_lines(v@),
            line_views(lines@) == before + all.take(i as int),
        decreases v@.len() - i,
    {
        let t = v[i].to_wide_string();
        say(lines, OutputLine::info(t.as_str()));
        assert(before + all.take(i + 1) =~= (before + all.take(i as int)).push(all[i as int]));
        i = i + 1;
    }
    assert(all.take(i as int) =~= all);
}

fn say_namespaces(lines: &mut Vec<OutputLine>, v: &Vec<String>)
    ensures
        line_views(final(lines)@) == line_views(old(lines)@) + namespace_lines(views(v@)),
{
    let ghost before = line_views(lines@);
    let ghost all = namespace_lines(views(v@));
    let mut i: usize = 0;
    assert(before + all.take(0) =~= before);
    while i < v.len()
        invariant
            i <= v@.len(),
            all == namespace_lines(views(v@)),
            line_views(lines@) == before + all.take(i as int),
        decreases v@.len() - i,
    {
        let mut t = "  ".to_owned();
        t.append(v[i].as_str());
        say(lines, OutputLine::info(t.as_str()));
        assert(before + all.take(i + 1) =~= (before + all.take(i as int)).push(all[i as int]));
        i = i + 1;
    }
    assert(all.take(i as int) =~= all);
}

fn say_pods(lines: &mut Vec<OutputLine>, v: &Vec<PodInfo>)
    ensures
        line_views(final(lines)@) == line_views(old(lines)@) + pod_lines(v@),
{
    let ghost before = line_views(lines@);
    let ghost all = pod_lines(v@);
    let mut i: usize = 0;
    assert(before + all.take(0) =~= before);
    while i < v.len()
        invariant
            i <= v@.len(),
            all == pod_lines(v@),
            line_views(lines@) == before + all.take(i as int),
        decreases v@.len() - i,
    {
        let t = v[i].to_string_line();
        say(lines, OutputLine::info(t.as_str()));
        assert(before + all.take(i + 1) =~= (before + all.take(i as int)).push(all[i as int]));
        i = i + 1;
    }
    assert(all.take(i as int) =~= all);
}

/// What is said of a cluster.
pub fn describe_cluster(status: ClusterStatus, f: &ClusterFacts) -> (r: Vec<OutputLine>)
    ensures
        line_views(r@) == info_lines(status, *f),
{
    let mut lines = no_lines();
    say(&mut lines, OutputLine::info("=== K3s Cluster Info ==="));
    let mut t = "Status: ".to_owned();
    t.append(name_of_status(status));
    say(&mut lines, OutputLine::info(t.as_str()));
    if status != ClusterStatus::Running {
        return lines;
    }
    if let Some(v) = &f.version {
        say(&mut lines, OutputLine::info(v.as_str()));
    }
    say(&mut lines, OutputLine::info("\n=== Nodes ==="));
    let t = row_of_node("NAME", "STATUS", "ROLES", "INTERNAL-IP", "VERSION");
    say(&mut lines, OutputLine::info(t.as_str()));
    say_nodes(&mut lines, &f.nodes);
    say(&mut lines, OutputLine::info("\n=== Namespaces ==="));
    say_namespaces(&mut lines, &f.namespaces);
    say(&mut lines, OutputLine::info("\n=== System Pods ==="));
    let t = row_of_pod("NAME", "READY", "STATUS");
    say(&mut lines, OutputLine::info(t.as_str()));
    say_pods(&mut lines, &f.system_pods);
    lines
}

/// Of a cluster that runs, every node, every namespace and every system pod is shown, and its version
/// where it is known; of one that does not run, nothing but its status.
pub proof fn law_cluster_is_shown_in_full(status: ClusterStatus, f: ClusterFacts, i: int)
    ensures
        info_lines(status, f)[1] == info("Status: "@ + status_name(status)),
        status != ClusterStatus::Running ==> info_lines(status, f).len() == 2,
        status == ClusterStatus::Running ==> {
            &&& 0 <= i < f.nodes@.len() ==> info_lines(status, f).contains(info(f.nodes@[i].wide()))
            &&& 0 <= i < f.namespaces@.len() ==> info_lines(status, f).contains(
                info("  "@ + f.namespaces@[i]@),
            )
            &&& 0 <= i < f.system_pods@.len() ==> info_lines(status, f).contains(
                info(
                    pod_row(
                        f.system_pods@[i].name@,
                        f.system_pods@[i].ready@,
                        f.system_pods@[i].status@,
                    ),
                ),
            )
            &&& f.version matches Some(v) ==> info_lines(status, f).contains(info(v@))
        },
{
    let l = info_lines(status, f);
    if status == ClusterStatus::Running {
        let k: int = if f.version is Some {
            3
        } else {
            2
        };
        let (n, m) = (f.nodes@.len() as int, f.namespaces@.len() as int);
        if f.version is Some {
            assert(l[2] == info(f.version->0@));
        }
        if 0 <= i < n {
            assert(l[k + 2 + i] == info(f.nodes@[i].wide()));
        }
        if 0 <= i < m {
            assert(l[k + 2 + n + 1 + i] == info("  "@ + views(f.namespaces@)[i]));
        }
        if 0 <= i < f.system_pods@.len() {
            assert(l[k + 2 + n + 1 + m + 2 + i] == pod_lines(f.system_pods@)[i]);
        }
    }
}

/// Each status is called by its name.
pub proof fn law_statuses_have_their_names(s: ClusterStatus)
    ensures
        s == ClusterStatus::Running ==> status_name(s) == "Running"@,
        s == ClusterStatus::Stopped ==> status_name(s) == "Stopped"@,
        s == ClusterStatus::Starting ==> status_name(s) == "Starting"@,
        s == ClusterStatus::Paused ==> status_name(s) == "Paused"@,
        s == ClusterStatus::NotCreated ==> status_name(s) == "NotCreated"@,
        s == ClusterStatus::RuntimeNotRunning ==> status_name(s) == "RuntimeNotRunning"@,
        s == ClusterStatus::Unknown ==> status_name(s) == "Unknown"@,
{
}

} // verus!
