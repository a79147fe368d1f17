//! The verdicts of the preflight tests.

use vstd::prelude::*;
use crate::cluster::checks::{failed, failed_with, passed, verdict, Reply, Verdict, VerdictView};
use crate::cluster::diagnostics::{
    law_port_name_reads_back, port_in_name, port_of_test_name, port_test_name,
};
use crate::number::{decimal, i64_text, number_upto, parse_upto, signed_decimal, u64_text};
use crate::text::views;

verus! {

/// What the Docker daemon says of itself.
#[derive(Clone, Debug)]
pub struct DaemonInfo {
    pub server_version: Option<String>,
    pub cgroup_driver: Option<String>,
}

/// What the Docker daemon holds, and the free space under its root directory where it is known:
/// the number of free blocks and their size.
#[derive(Clone, Debug)]
pub struct DiskInfo {
    pub images: Option<i64>,
    pub containers: Option<i64>,
    pub root_dir: Option<String>,
    pub free_blocks: Option<(u64, u64)>,
}

/// The host ports that the cluster's own container maps, and whether it runs.
#[derive(Clone, Debug)]
pub struct MappedPorts {
    pub host_ports: Vec<String>,
    pub running: Option<bool>,
}

/// A directory that is wanted.
#[derive(Debug)]
pub enum DirectoryState {
    /// There is no such path.
    NoPath,
    /// It exists.
    Exists(String),
    /// It did not exist; the attempt to create it came to this.
    Created(String, Result<(), String>),
}

/// How to find out whether a port is free.
#[derive(Debug)]
pub enum PortPlan {
    /// It is decided already.
    Decided(Verdict),
    /// Connect to it: privileged ports cannot be bound without root.
    Connect(u16),
    /// Bind it.
    Bind(u16),
}

pub open spec fn or_empty(o: Option<String>) -> Seq<char> {
    match o {
        Some(s) => s@,
        None => Seq::empty(),
    }
}

pub open spec fn or_zero(o: Option<i64>) -> int {
    match o {
        Some(n) => n as int,
        None => 0,
    }
}

fn text_or_empty(o: &Option<String>) -> (r: String)
    ensures
        r@ == or_empty(*o),
{
    match o {
        Some(s) => s.clone(),
        None => String::new(),
    }
}

pub open spec fn daemon_verdict(info: Reply<DaemonInfo>) -> VerdictView {
    match info {
        Reply::Unavailable(e) => Err(e@),
        Reply::Failed(e) => Err("daemon error: "@ + e@),
        Reply::Got(i) => Ok(
            Some(
                "v"@ + or_empty(i.server_version) + ", cgroup="@ + match i.cgroup_driver {
                    Some(d) => d@,
                    None => "unknown"@,
                },
            ),
        ),
    }
}

/// Version and cgroup driver of the Docker daemon.
pub fn check_docker_info(info: &Reply<DaemonInfo>) -> (r: Verdict)
    ensures
        verdict(r) == daemon_verdict(*info),
{
    match info {
        Reply::Unavailable(e) => Err(e.clone()),
        Reply::Failed(e) => failed_with("daemon error: ", e.as_str()),
        Reply::Got(i) => {
            let mut s = "v".to_owned();
            s.append(text_or_empty(&i.server_version).as_str());
            s.append(", cgroup=");
            match &i.cgroup_driver {
                Some(d) => s.append(d.as_str()),
                None => s.append("unknown"),
            }
            Ok(Some(s))
        },
    }
}

/// Free space in whole gibibytes.
pub open spec fn free_gib(blocks: u64, size: u64) -> nat {
    ((blocks as nat) * (size as nat)) / (1024 * 1024 * 1024)
}

pub open spec fn disk_verdict(info: Reply<DiskInfo>) -> VerdictView {
    match info {
        Reply::Unavailable(e) => Err(e@),
        Reply::Failed(e) => Err("docker info failed: "@ + e@),
        Reply::Got(i) => {
            let images = signed_decimal(or_zero(i.images));
            let containers = signed_decimal(or_zero(i.containers));
            match i.free_blocks {
                None => Ok(Some(images + " images, "@ + containers + " containers"@)),
                Some(b) => {
                    let gib = free_gib(b.0, b.1);
                    if gib < 5 {
                        Err(
                            "low disk: "@ + decimal(gib) + "G free on "@ + or_empty(i.root_dir)
                                + " ("@ + images + " images, "@ + containers + " containers)"@,
                        )
                    } else {
                        Ok(Some(decimal(gib) + "G free, "@ + images + " images"@))
                    }
                },
            }
        },
    }
}

/// Whether Docker has at least five gibibytes to write to; the mere counts where that is unknown.
pub fn check_docker_disk(info: &Reply<DiskInfo>) -> (r: Verdict)
    ensures
        verdict(r) == disk_verdict(*info),
{
    match info {
        Reply::Unavailable(e) => Err(e.clone()),
        Reply::Failed(e) => failed_with("docker info failed: ", e.as_str()),
        Reply::Got(i) => {
            let images = i64_text(
                match i.images {
                    Some(n) => n,
                    None => 0,
                },
            );
            let containers = i64_text(
                match i.containers {
                    Some(n) => n,
                    None => 0,
                },
            );
            match i.free_blocks {
                None => {
                    let mut s = images;
                    s.append(" images, ");
                    s.append(containers.as_str());
                    s.append(" containers");
                    Ok(Some(s))
                },
                Some(b) => {
                    proof {
                        vstd::arithmetic::mul::lemma_mul_upper_bound(
                            b.0 as int,
                            u64::MAX as int,
                            b.1 as int,
                            u64::MAX as int,
                        );
                        vstd::arithmetic::mul::lemma_mul_nonnegative(b.0 as int, b.1 as int);
                    }
                    let bytes: u128 = (b.0 as u128) * (b.1 as u128);
                    let gib: u128 = bytes / (1024 * 1024 * 1024);
                    assert(gib == free_gib(b.0, b.1));
                    if gib < 5 {
                        let mut s = "low disk: ".to_owned();
                        s.append(u64_text(gib as u64).as_str());
                        s.append("G free on ");
                        s.append(text_or_empty(&i.root_dir).as_str());
                        s.append(" (");
                        s.append(images.as_str());
                        s.append(" images, ");
                        s.append(containers.as_str());
                        s.append(" containers)");
                        Err(s)
                    } else {
                        let mut s = crate::number::u128_text(gib);
                        s.append("G free, ");
                        s.append(images.as_str());
                        s.append(" images");
                        Ok(Some(s))
                    }
                },
            }
        },
    }
}

pub open spec fn image_verdict(cached: Result<bool, String>) -> VerdictView {
    match cached {
        Err(e) => Err(e@),
        Ok(true) => Ok(Some("cached locally"@)),
        Ok(false) => Ok(Some("will be pulled on start"@)),
    }
}

/// Whether the K3s image is there. Never a failure while Docker answers.
pub fn check_k3s_image(cached: &Result<bool, String>) -> (r: Verdict)
    ensures
        verdict(r) == image_verdict(*cached),
{
    match cached {
        Err(e) => Err(e.clone()),
        Ok(b) => if *b {
            passed("cached locally")
        } else {
            passed("will be pulled on start")
        },
    }
}

pub open spec fn container_conflict_verdict(
    state: Result<Option<bool>, String>,
    name: Seq<char>,
) -> VerdictView {
    match state {
        Err(e) => Err(e@),
        Ok(None) => Ok(None),
        Ok(Some(true)) => Err("'"@ + name + "' already running — stop or destroy first"@),
        Ok(Some(false)) => Ok(Some("'"@ + name + "' exists (stopped) — will be restarted"@)),
    }
}

/// Whether the container's name is taken: `None` where no such container exists, else whether
/// it runs.
pub fn check_container_conflict(state: &Result<Option<bool>, String>, name: &str) -> (r: Verdict)
    ensures
        verdict(r) == container_conflict_verdict(*state, name@),
{
    match state {
        Err(e) => Err(e.clone()),
        Ok(None) => Ok(None),
        Ok(Some(running)) => {
            let mut s = "'".to_owned();
            s.append(name);
            if *running {
                s.append("' already running — stop or destroy first");
                Err(s)
            } else {
                s.append("' exists (stopped) — will be restarted");
                Ok(Some(s))
            }
        },
    }
}

pub open spec fn network_conflict_verdict(found: Result<bool, String>, name: Seq<char>) -> VerdictView {
    match found {
        Err(e) => Err(e@),
        Ok(true) => Ok(Some("'"@ + name + "' exists (will be reused)"@)),
        Ok(false) => Ok(None),
    }
}

/// Whether the network exists already. Never a failure while Docker answers.
pub fn check_network_conflict(found: &Result<bool, String>, name: &str) -> (r: Verdict)
    ensures
        verdict(r) == network_conflict_verdict(*found, name@),
{
    match found {
        Err(e) => Err(e.clone()),
        Ok(b) => if *b {
            let mut s = "'".to_owned();
            s.append(name);
            s.append("' exists (will be reused)");
            Ok(Some(s))
        } else {
            Ok(None)
        },
    }
}

/// Whether one of the texts denotes the port.
pub open spec fn maps_port(host_ports: Seq<Seq<char>>, port: nat) -> bool {
    exists|i: int|
        0 <= i < host_ports.len() && number_upto(#[trigger] host_ports[i], 65535) == Some(port)
}

/// The plan for a port test, in views.
pub enum PortPlanView {
    Decided(VerdictView),
    Connect(u16),
    Bind(u16),
}

impl View for PortPlan {
    type V = PortPlanView;

    open spec fn view(&self) -> PortPlanView {
        match *self {
            PortPlan::Decided(v) => PortPlanView::Decided(verdict(v)),
            PortPlan::Connect(p) => PortPlanView::Connect(p),
            PortPlan::Bind(p) => PortPlanView::Bind(p),
        }
    }
}

/// How to test the port that a test's name carries, given what the own container maps.
pub open spec fn port_plan(name: Seq<char>, own: Option<MappedPorts>) -> PortPlanView {
    match port_in_name(name) {
        None => PortPlanView::Decided(Err("invalid port test"@)),
        Some(p) => if own is Some && maps_port(views(own->0.host_ports@), p) {
            if own->0.running == Some(true) {
                PortPlanView::Decided(Ok(Some("in use by k3dev (running)"@)))
            } else {
                PortPlanView::Decided(Ok(Some("mapped by k3dev (stopped)"@)))
            }
        } else if p < 1024 {
            PortPlanView::Connect(p as u16)
        } else {
            PortPlanView::Bind(p as u16)
        },
    }
}

fn has_port(host_ports: &Vec<String>, port: u16) -> (r: bool)
    ensures
        r == maps_port(views(host_ports@), port as nat),
{
    let ghost all = views(host_ports@);
    let mut i: usize = 0;
    while i < host_ports.len()
        invariant
            i <= host_ports@.len(),
            all == views(host_ports@),
            forall|j: int|
                0 <= j < i ==> number_upto(#[trigger] all[j], 65535) != Some(port as nat),
        decreases host_ports@.len() - i,
    {
        assert(all[i as int] == host_ports@[i as int]@);
        if let Some(n) = parse_upto(host_ports[i].as_str(), 65535) {
            if n == port as u64 {
                return true;
            }
        }
        i = i + 1;
    }
    false
}

/// How to test the port that a test's name carries: a port that the cluster's own container
/// maps is no conflict, whatever its state.
pub fn plan_port_check(test_name: &str, own: &Option<MappedPorts>) -> (r: PortPlan)
    ensures
        r@ == port_plan(test_name@, *own),
{
    match port_of_test_name(test_name) {
        None => PortPlan::Decided(failed("invalid port test")),
        Some(p) => {
            if let Some(m) = own {
                if has_port(&m.host_ports, p) {
                    let running = match m.running {
                        Some(b) => b,
                        None => false,
                    };
                    return if running {
                        PortPlan::Decided(passed("in use by k3dev (running)"))
                    } else {
                        PortPlan::Decided(passed("mapped by k3dev (stopped)"))
                    };
                }
            }
            if p < 1024 {
                PortPlan::Connect(p)
            } else {
                PortPlan::Bind(p)
            }
        },
    }
}

pub open spec fn connect_verdict(port: u16, connected: bool) -> VerdictView {
    if connected {
        Err("port "@ + decimal(port as nat) + " in use by another service"@)
    } else {
        Ok(None)
    }
}

/// A privileged port is taken exactly where something accepts a connection.
pub fn check_port_connect(port: u16, connected: bool) -> (r: Verdict)
    ensures
        verdict(r) == connect_verdict(port, connected),
{
    if connected {
        let mut s = "port ".to_owned();
        s.append(u64_text(port as u64).as_str());
        s.append(" in use by another service");
        Err(s)
    } else {
        Ok(None)
    }
}

pub open spec fn bind_verdict(port: u16, bound: bool) -> VerdictView {
    if bound {
        Ok(None)
    } else {
        Err("port "@ + decimal(port as nat) + " already in use by another service"@)
    }
}

/// Any other port is free exactly where it can be bound.
pub fn check_port_bind(port: u16, bound: bool) -> (r: Verdict)
    ensures
        verdict(r) == bind_verdict(port, bound),
{
    if bound {
        Ok(None)
    } else {
        let mut s = "port ".to_owned();
        s.append(u64_text(port as u64).as_str());
        s.append(" already in use by another service");
        Err(s)
    }
}

pub open spec fn directory_verdict(d: DirectoryState) -> VerdictView {
    match d {
        DirectoryState::NoPath => Ok(None),
        DirectoryState::Exists(p) => Ok(Some(p@)),
        DirectoryState::Created(p, Ok(_)) => Ok(Some("created "@ + p@)),
        DirectoryState::Created(p, Err(e)) => Err(p@ + ": "@ + e@),
    }
}

/// Whether a directory exists or could be created.
pub fn check_directory(d: &DirectoryState) -> (r: Verdict)
    ensures
        verdict(r) == directory_verdict(*d),
{
    match d {
        DirectoryState::NoPath => Ok(None),
        DirectoryState::Exists(p) => Ok(Some(p.clone())),
        DirectoryState::Created(p, Ok(_)) => {
            let mut s = "created ".to_owned();
            s.append(p.as_str());
            Ok(Some(s))
        },
        DirectoryState::Created(p, Err(e)) => {
            let mut s = p.clone();
            s.append(": ");
            s.append(e.as_str());
            Err(s)
        },
    }
}

// ---------------------------------------------------------------------------
// Laws
// ---------------------------------------------------------------------------

/// The disk passes exactly where Docker answers and has five gibibytes free, or the free space is not
/// known.
pub proof fn law_disk_needs_five_gibibytes(info: Reply<DiskInfo>)
    ensures
        disk_verdict(info) is Ok <==> (info matches Reply::Got(i) && (i.free_blocks matches Some(b)
            ==> b.0 * b.1 >= 5_368_709_120)),
{
    if let Reply::Got(i) = info {
        if let Some(b) = i.free_blocks {
            let n = b.0 * b.1;
            assert(b.0 as nat * b.1 as nat == n);
            assert(free_gib(b.0, b.1) < 5 <==> n < 5_368_709_120) by (nonlinear_arith)
                requires
                    free_gib(b.0, b.1) == n / 1_073_741_824,
                    n >= 0,
            ;
        }
    }
}

/// A daemon that answers passes, an image and a network pass whether they are there or not, and a
/// container of the same name stands in the way only while it runs.
pub proof fn law_only_a_running_container_conflicts(
    info: Reply<DaemonInfo>,
    found: Result<bool, String>,
    state: Result<Option<bool>, String>,
    name: Seq<char>,
)
    ensures
        daemon_verdict(info) is Ok <==> info is Got,
        image_verdict(found) is Ok <==> found is Ok,
        network_conflict_verdict(found, name) is Ok <==> found is Ok,
        container_conflict_verdict(state, name) is Ok <==> (state matches Ok(s) && s != Some(true)),
{
}

/// A port of the cluster's own container is no conflict; any other is looked at, and it is the port
/// that the test is named after: ports below 1024 by a connection, others by binding them.
pub proof fn law_ports_are_looked_at(port: u16, label: Seq<char>, own: Option<MappedPorts>)
    ensures
        ({
            let plan = port_plan(port_test_name(port as nat, label), own);
            let mapped = own matches Some(m) && exists|i: int|
                0 <= i < m.host_ports@.len() && number_upto(
                    (#[trigger] m.host_ports@[i])@,
                    65535,
                ) == Some(port as nat);
            &&& mapped ==> (plan matches PortPlanView::Decided(v) && v is Ok)
            &&& !mapped && port < 1024 ==> plan == PortPlanView::Connect(port)
            &&& !mapped && port >= 1024 ==> plan == PortPlanView::Bind(port)
        }),
{
    law_port_name_reads_back(port, label);
    if let Some(m) = own {
        let hs = views(m.host_ports@);
        if exists|i: int|
            0 <= i < m.host_ports@.len() && number_upto((#[trigger] m.host_ports@[i])@, 65535)
                == Some(port as nat) {
            let i = choose|i: int|
                0 <= i < m.host_ports@.len() && number_upto((#[trigger] m.host_ports@[i])@, 65535)
                    == Some(port as nat);
            assert(number_upto(hs[i], 65535) == Some(port as nat));
        }
        if maps_port(hs, port as nat) {
            let i = choose|i: int|
                0 <= i < hs.len() && number_upto(#[trigger] hs[i], 65535) == Some(port as nat);
            assert(number_upto(m.host_ports@[i]@, 65535) == Some(port as nat));
        }
    }
}

/// A port is free exactly where nothing accepts a connection, or where it can be bound; a directory
/// passes unless it could not be created.
pub proof fn law_taken_ports_fail(port: u16, connected: bool, bound: bool, d: DirectoryState)
    ensures
        connect_verdict(port, connected) is Ok <==> !connected,
        bind_verdict(port, bound) is Ok <==> bound,
        directory_verdict(d) is Err <==> (d matches DirectoryState::Created(_, r) && r is Err),
{
}

/// A port that the own container maps is no conflict, and it is told whether the container runs.
pub proof fn law_own_ports_are_no_conflict(name: Seq<char>, own: MappedPorts, p: nat)
    requires
        port_in_name(name) == Some(p),
        maps_port(views(own.host_ports@), p),
    ensures
        port_plan(name, Some(own)) == PortPlanView::Decided(
            Ok(
                Some(
                    if own.running == Some(true) {
                        "in use by k3dev (running)"@
                    } else {
                        "mapped by k3dev (stopped)"@
                    },
                ),
            ),
        ),
{
}

} // verus!
