//! Containers: what to run, and what Docker's answers about them mean.

use vstd::prelude::*;
use crate::machine::{Trouble, TroubleView};
use crate::number::{decimal, law_decimal_injective, u64_text};
use crate::text::{
    begins, clone_all, contains, has_sub, in_lower, join, joined, lemma_has_middle, no_texts, opt_clone,
    opt_view,
    opt_views, push_text, same, strip_prefix, to_lowercase, views,
};
use crate::textmap::{law_put_then_lookup, lookup, put, TextMap};

verus! {

/// A container to run.
#[derive(Debug)]
pub struct ContainerRunConfig {
    pub name: String,
    pub hostname: Option<String>,
    pub image: String,
    pub detach: bool,
    pub privileged: bool,
    /// Ports of the host and of the container.
    pub ports: Vec<(u16, u16)>,
    /// Source, destination and options.
    pub volumes: Vec<(String, String, String)>,
    pub env: Vec<(String, String)>,
    pub network: Option<String>,
    pub cgroupns_host: bool,
    pub pid_host: bool,
    pub entrypoint: Option<String>,
    pub command: Option<Vec<String>>,
    /// Security options, such as `apparmor=unconfined`.
    pub security_opt: Vec<String>,
    pub labels: TextMap<String>,
    pub auto_remove: bool,
}

/// How mounts below a bind mount are seen on both sides.
#[derive(Debug, Clone, Copy, PartialEq, Eq, Structural)]
pub enum Propagation {
    Private,
    Rprivate,
    Shared,
    Rshared,
    Slave,
    Rslave,
}

/// A bind mount.
#[derive(Debug, Clone)]
pub struct BindMount {
    pub source: String,
    pub target: String,
    pub propagation: Option<Propagation>,
}

/// A request to create a container. Every port is published on all addresses of the host.
#[derive(Debug)]
pub struct ContainerBody {
    pub name: String,
    pub image: String,
    pub hostname: Option<String>,
    pub env: Option<Vec<String>>,
    pub exposed_ports: Option<Vec<String>>,
    /// For each exposed port the port of the host.
    pub port_bindings: TextMap<u16>,
    pub binds: Option<Vec<String>>,
    pub mounts: Option<Vec<BindMount>>,
    pub privileged: bool,
    pub network_mode: Option<String>,
    pub cgroupns_host: bool,
    pub pid_host: bool,
    pub security_opt: Option<Vec<String>>,
    pub entrypoint: Option<Vec<String>>,
    pub cmd: Option<Vec<String>>,
    pub labels: TextMap<String>,
    pub auto_remove: bool,
    /// Whether to start it once it is created.
    pub start: bool,
}

/// The address on which ports are published.
pub const PUBLISH_ADDRESS: &'static str = "0.0.0.0";

// ---------------------------------------------------------------------------
// Models
// ---------------------------------------------------------------------------

/// The list, or nothing where it is empty.
pub open spec fn unless_empty(s: Seq<Seq<char>>) -> Option<Seq<Seq<char>>> {
    if s.len() == 0 {
        None
    } else {
        Some(s)
    }
}

/// The notation of a TCP port.
pub open spec fn tcp_port(p: u16) -> Seq<char> {
    decimal(p as nat) + "/tcp"@
}

/// The container's sides of the published ports.
pub open spec fn exposed(ports: Seq<(u16, u16)>) -> Seq<Seq<char>> {
    Seq::new(ports.len(), |i: int| tcp_port(ports[i].1))
}

/// The host port of each container port; of two for one container port, the later.
pub open spec fn bindings(ports: Seq<(u16, u16)>) -> Seq<(Seq<char>, u16)>
    decreases ports.len(),
{
    if ports.len() == 0 {
        Seq::empty()
    } else {
        put(bindings(ports.drop_last()), tcp_port(ports.last().1), ports.last().0)
    }
}

/// Settings of the environment in the notation `name=value`.
pub open spec fn settings(env: Seq<(String, String)>) -> Seq<Seq<char>> {
    Seq::new(env.len(), |i: int| env[i].0@ + "="@ + env[i].1@)
}

/// Whether a volume with these options is given in the notation `source:destination`.
pub open spec fn is_bind(options: Seq<char>) -> bool {
    options.len() == 0 || options == "volume"@
}

/// The volumes in the notation `source:destination`.
pub open spec fn bind_texts(v: Seq<(String, String, String)>) -> Seq<Seq<char>>
    decreases v.len(),
{
    if v.len() == 0 {
        Seq::empty()
    } else if is_bind(v.last().2@) {
        bind_texts(v.drop_last()).push(v.last().0@ + ":"@ + v.last().1@)
    } else {
        bind_texts(v.drop_last())
    }
}

/// The propagation that a text names.
pub open spec fn propagation_named(s: Seq<char>) -> Propagation {
    if s == "private"@ {
        Propagation::Private
    } else if s == "shared"@ {
        Propagation::Shared
    } else if s == "rshared"@ {
        Propagation::Rshared
    } else if s == "slave"@ {
        Propagation::Slave
    } else if s == "rslave"@ {
        Propagation::Rslave
    } else {
        Propagation::Rprivate
    }
}

/// The propagation that the options of a volume ask for.
pub open spec fn propagation_in(options: Seq<char>) -> Option<Propagation> {
    if begins(options, "bind-propagation="@) {
        Some(propagation_named(options.skip("bind-propagation="@.len() as int)))
    } else {
        None
    }
}

/// Source, target and propagation of a bind mount.
pub type MountView = (Seq<char>, Seq<char>, Option<Propagation>);

/// Bind mounts, as values.
pub open spec fn mount_views(v: Seq<BindMount>) -> Seq<MountView> {
    Seq::new(v.len(), |i: int| (v[i].source@, v[i].target@, v[i].propagation))
}

/// The bind mounts that the volumes ask for.
pub open spec fn mounts_for(v: Seq<(String, String, String)>) -> Seq<MountView>
    decreases v.len(),
{
    if v.len() == 0 {
        Seq::empty()
    } else if is_bind(v.last().2@) {
        mounts_for(v.drop_last())
    } else {
        mounts_for(v.drop_last()).push(
            (v.last().0@, v.last().1@, propagation_in(v.last().2@)),
        )
    }
}

/// The entry point that a text stands for: none of its own where it is empty.
pub open spec fn entry_point(e: Option<String>) -> Option<Seq<Seq<char>>> {
    match e {
        None => None,
        Some(t) => if t@.len() == 0 {
            Some(Seq::empty())
        } else {
            Some(seq![t@])
        },
    }
}

/// Whether a version of Docker's interface knows the host's namespace of control groups.
pub open spec fn knows_cgroupns(major: int, minor: int) -> bool {
    major > 1 || (major == 1 && minor >= 41)
}

/// Whether `b` asks for exactly the container that `c` describes.
pub open spec fn requests(b: ContainerBody, c: ContainerRunConfig, major: int, minor: int) -> bool {
    &&& b.name@ == c.name@
    &&& b.image@ == c.image@
    &&& opt_view(b.hostname) == opt_view(c.hostname)
    &&& opt_views(b.env) == unless_empty(settings(c.env@))
    &&& opt_views(b.exposed_ports) == unless_empty(exposed(c.ports@))
    &&& b.port_bindings@ == bindings(c.ports@)
    &&& opt_views(b.binds) == unless_empty(bind_texts(c.volumes@))
    &&& match b.mounts {
        Some(m) => mounts_for(c.volumes@).len() > 0 && mount_views(m@) == mounts_for(c.volumes@),
        None => mounts_for(c.volumes@).len() == 0,
    }
    &&& b.privileged == c.privileged
    &&& opt_view(b.network_mode) == opt_view(c.network)
    &&& b.cgroupns_host == (c.cgroupns_host && knows_cgroupns(major, minor))
    &&& b.pid_host == c.pid_host
    &&& opt_views(b.security_opt) == unless_empty(views(c.security_opt@))
    &&& opt_views(b.entrypoint) == entry_point(c.entrypoint)
    &&& opt_views(b.cmd) == opt_views(c.command)
    &&& b.labels@ == c.labels@
    &&& b.auto_remove == c.auto_remove
    &&& b.start == c.detach
}

// ---------------------------------------------------------------------------
// Creating a container
// ---------------------------------------------------------------------------

fn some_unless_empty(v: Vec<String>) -> (r: Option<Vec<String>>)
    ensures
        opt_views(r) == unless_empty(views(v@)),
{
    assert(views(v@).len() == v@.len());
    if v.len() == 0 {
        None
    } else {
        Some(v)
    }
}

fn clone_opt_list(v: &Option<Vec<String>>) -> (r: Option<Vec<String>>)
    ensures
        opt_views(r) == opt_views(*v),
{
    match v {
        Some(l) => Some(clone_all(l)),
        None => None,
    }
}

fn clone_labels(m: &TextMap<String>) -> (r: TextMap<String>)
    ensures
        r@ == m@,
{
    let mut out: Vec<(String, String)> = Vec::new();
    let mut i: usize = 0;
    while i < m.entries.len()
        invariant
            i <= m.entries@.len(),
            out@.len() == i,
            forall|j: int|
                0 <= j < i ==> (#[trigger] out@[j]).0@ == m.entries@[j].0@ && out@[j].1
                    == m.entries@[j].1,
        decreases m.entries@.len() - i,
    {
        out.push((m.entries[i].0.clone(), m.entries[i].1.clone()));
        i = i + 1;
    }
    let r = TextMap { entries: out };
    assert(r@ =~= m@);
    r
}

fn port_notation(p: u16) -> (r: String)
    ensures
        r@ == tcp_port(p),
{
    let mut s = u64_text(p as u64);
    s.append("/tcp");
    s
}

fn colon_pair(a: &str, sep: &str, b: &str) -> (r: String)
    ensures
        r@ == a@ + sep@ + b@,
{
    let mut s = a.to_owned();
    s.append(sep);
    s.append(b);
    s
}

fn expose_ports(ports: &Vec<(u16, u16)>) -> (r: (Vec<String>, TextMap<u16>))
    ensures
        views(r.0@) == exposed(ports@),
        r.1@ == bindings(ports@),
{
    let mut names = no_texts();
    let mut map: TextMap<u16> = TextMap::new();
    let mut i: usize = 0;
    assert(ports@.take(0) =~= Seq::<(u16, u16)>::empty());
    assert(views(names@) =~= exposed(ports@.take(0)));
    while i < ports.len()
        invariant
            i <= ports@.len(),
            views(names@) == exposed(ports@.take(i as int)),
            map@ == bindings(ports@.take(i as int)),
        decreases ports@.len() - i,
    {
        let p = ports[i];
        let s = port_notation(p.1);
        push_text(&mut names, s.as_str());
        map.insert(s, p.0);
        assert(ports@.take(i + 1).drop_last() =~= ports@.take(i as int));
        assert(exposed(ports@.take(i + 1)) =~= exposed(ports@.take(i as int)).push(tcp_port(p.1)));
        i = i + 1;
    }
    assert(ports@.take(i as int) =~= ports@);
    (names, map)
}

fn settings_of(env: &Vec<(String, String)>) -> (r: Vec<String>)
    ensures
        views(r@) == settings(env@),
{
    let mut out = no_texts();
    let mut i: usize = 0;
    assert(views(out@) =~= settings(env@).take(0));
    while i < env.len()
        invariant
            i <= env@.len(),
            views(out@) == settings(env@).take(i as int),
        decreases env@.len() - i,
    {
        let s = colon_pair(env[i].0.as_str(), "=", env[i].1.as_str());
        push_text(&mut out, s.as_str());
        assert(settings(env@).take(i + 1) =~= settings(env@).take(i as int).push(
            settings(env@)[i as int],
        ));
        i = i + 1;
    }
    assert(settings(env@).take(i as int) =~= settings(env@));
    out
}

fn propagation_of(options: &str) -> (r: Option<Propagation>)
    ensures
        r == propagation_in(options@),
{
    match strip_prefix(options, "bind-propagation=") {
        None => None,
        Some(t) => {
            let s = t.as_str();
            Some(
                if same(s, "private") {
                    Propagation::Private
                } else if same(s, "shared") {
                    Propagation::Shared
                } else if same(s, "rshared") {
                    Propagation::Rshared
                } else if same(s, "slave") {
                    Propagation::Slave
                } else if same(s, "rslave") {
                    Propagation::Rslave
                } else {
                    Propagation::Rprivate
                },
            )
        },
    }
}

fn sort_volumes(v: &Vec<(String, String, String)>) -> (r: (Vec<String>, Vec<BindMount>))
    ensures
        views(r.0@) == bind_texts(v@),
        mount_views(r.1@) == mounts_for(v@),
{
    let mut binds = no_texts();
    let mut mounts: Vec<BindMount> = Vec::new();
    let mut i: usize = 0;
    assert(v@.take(0) =~= Seq::<(String, String, String)>::empty());
    assert(mount_views(mounts@) =~= Seq::<MountView>::empty());
    while i < v.len()
        invariant
            i <= v@.len(),
            views(binds@) == bind_texts(v@.take(i as int)),
            mount_views(mounts@) == mounts_for(v@.take(i as int)),
        decreases v@.len() - i,
    {
        assert(v@.take(i + 1).drop_last() =~= v@.take(i as int));
        assert(v@.take(i + 1).last() == v@[i as int]);
        let options = v[i].2.as_str();
        if options.is_empty() || same(options, "volume") {
            let s = colon_pair(v[i].0.as_str(), ":", v[i].1.as_str());
            push_text(&mut binds, s.as_str());
        } else {
            let ghost before = mount_views(mounts@);
            let m = BindMount {
                source: v[i].0.clone(),
                target: v[i].1.clone(),
                propagation: propagation_of(options),
            };
            let ghost row = (m.source@, m.target@, m.propagation);
            mounts.push(m);
            assert(mount_views(mounts@) =~= before.push(row));
        }
        i = i + 1;
    }
    assert(v@.take(i as int) =~= v@);
    (binds, mounts)
}

fn entry_of(e: &Option<String>) -> (r: Option<Vec<String>>)
    ensures
        opt_views(r) == entry_point(*e),
{
    match e {
        None => None,
        Some(t) => {
            let mut v = no_texts();
            if !t.as_str().is_empty() {
                push_text(&mut v, t.as_str());
            }
            Some(v)
        },
    }
}

/// The request that creates a container. `major` and `minor` are the version of Docker's
/// interface.
pub fn run_container(c: &ContainerRunConfig, major: usize, minor: usize) -> (r: ContainerBody)
    ensures
        requests(r, *c, major as int, minor as int),
{
    let (ports, port_bindings) = expose_ports(&c.ports);
    let (binds, mounts) = sort_volumes(&c.volumes);
    assert(mount_views(mounts@).len() == mounts@.len());
    ContainerBody {
        name: c.name.clone(),
        image: c.image.clone(),
        hostname: opt_clone(&c.hostname),
        env: some_unless_empty(settings_of(&c.env)),
        exposed_ports: some_unless_empty(ports),
        port_bindings,
        binds: some_unless_empty(binds),
        mounts: if mounts.len() == 0 {
            None
        } else {
            Some(mounts)
        },
        privileged: c.privileged,
        network_mode: opt_clone(&c.network),
        cgroupns_host: c.cgroupns_host && (major > 1 || (major == 1 && minor >= 41)),
        pid_host: c.pid_host,
        security_opt: some_unless_empty(clone_all(&c.security_opt)),
        entrypoint: entry_of(&c.entrypoint),
        cmd: clone_opt_list(&c.command),
        labels: clone_labels(&c.labels),
        auto_remove: c.auto_remove,
        start: c.detach,
    }
}

// ---------------------------------------------------------------------------
// Failing to start a container
// ---------------------------------------------------------------------------

/// What to do about ports on macOS.
pub const MACOS_PORT_HELP: &'static str =
    "On macOS, binding to ports below 1024 (like 80/443) requires Docker Desktop's privileged port mapping.\n\nTo fix:\n- Open Docker Desktop → Settings → Advanced → Enable privileged port mapping\n- Or configure alternative ports in k3dev.yml:\nhttp_port: 8080\nhttps_port: 8443\n";

/// What to do about ports elsewhere.
pub const PORT_HELP: &'static str =
    "Possible causes:\n- Another process is already using the port(s)\n- Insufficient permissions to bind to ports below 1024\n\nTo fix, configure alternative ports in k3dev.yml:\nhttp_port: 8080\nhttps_port: 8443\n";

/// Whether a message, in lower case, speaks of a port.
pub open spec fn speaks_of_ports(m: Seq<char>) -> bool {
    has_sub(m, "bind"@) || has_sub(m, "address already in use"@) || has_sub(
        m,
        "permission denied"@,
    ) || has_sub(m, "port is already allocated"@)
}

/// The ports of the host that only privileged programs may use, as `host:container`.
pub open spec fn low_ports(ports: Seq<(u16, u16)>) -> Seq<Seq<char>>
    decreases ports.len(),
{
    if ports.len() == 0 {
        Seq::empty()
    } else if ports.last().0 < 1024 {
        low_ports(ports.drop_last()).push(
            decimal(ports.last().0 as nat) + ":"@ + decimal(ports.last().1 as nat),
        )
    } else {
        low_ports(ports.drop_last())
    }
}

/// The message of an error about ports.
pub open spec fn port_error(
    name: Seq<char>,
    ports: Seq<(u16, u16)>,
    cause: Seq<char>,
    macos: bool,
) -> Seq<char> {
    let head = "Failed to start container '"@ + name + "': port binding error.\n\nError: "@ + cause
        + "\n\n"@;
    let low = low_ports(ports);
    let listed = if low.len() == 0 {
        head
    } else {
        head + "Privileged ports configured: "@ + joined(low, ", "@) + "\n\n"@
    };
    listed + if macos {
        MACOS_PORT_HELP@
    } else {
        PORT_HELP@
    }
}

/// The failure to start a container; `small` is its cause in lower case.
pub open spec fn start_error(
    name: Seq<char>,
    ports: Seq<(u16, u16)>,
    cause: Seq<char>,
    small: Seq<char>,
    macos: bool,
) -> TroubleView {
    if speaks_of_ports(small) {
        TroubleView { message: port_error(name, ports, cause, macos), cause: None }
    } else {
        TroubleView { message: "Failed to start container "@ + name, cause: Some(cause) }
    }
}

fn low_port_texts(ports: &Vec<(u16, u16)>) -> (r: Vec<String>)
    ensures
        views(r@) == low_ports(ports@),
{
    let mut out = no_texts();
    let mut i: usize = 0;
    assert(ports@.take(0) =~= Seq::<(u16, u16)>::empty());
    while i < ports.len()
        invariant
            i <= ports@.len(),
            views(out@) == low_ports(ports@.take(i as int)),
        decreases ports@.len() - i,
    {
        let p = ports[i];
        assert(ports@.take(i + 1).drop_last() =~= ports@.take(i as int));
        if p.0 < 1024 {
            let a = u64_text(p.0 as u64);
            let b = u64_text(p.1 as u64);
            let s = colon_pair(a.as_str(), ":", b.as_str());
            push_text(&mut out, s.as_str());
        }
        i = i + 1;
    }
    assert(ports@.take(i as int) =~= ports@);
    out
}

/// The failure to start a container; `small` is its cause in lower case.
pub fn explain_start_error(c: &ContainerRunConfig, cause: &str, small: &str, macos: bool) -> (r:
    Trouble)
    ensures
        r@ == start_error(c.name@, c.ports@, cause@, small@, macos),
{
    if contains(small, "bind") || contains(small, "address already in use") || contains(
        small,
        "permission denied",
    ) || contains(small, "port is already allocated") {
        let mut s = "Failed to start container '".to_owned();
        s.append(c.name.as_str());
        s.append("': port binding error.\n\nError: ");
        s.append(cause);
        s.append("\n\n");
        let low = low_port_texts(&c.ports);
        assert(views(low@).len() == low@.len());
        if low.len() > 0 {
            s.append("Privileged ports configured: ");
            s.append(join(&low, ", ").as_str());
            s.append("\n\n");
        }
        s.append(
            if macos {
                MACOS_PORT_HELP
            } else {
                PORT_HELP
            },
        );
        Trouble { message: s, cause: None }
    } else {
        let mut s = "Failed to start container ".to_owned();
        s.append(c.name.as_str());
        Trouble { message: s, cause: Some(cause.to_owned()) }
    }
}

/// The failure to start a container.
pub fn start_failed(c: &ContainerRunConfig, cause: &str, macos: bool) -> (r: Trouble)
    ensures
        r@ == start_error(c.name@, c.ports@, cause@, in_lower(cause@), macos),
{
    let small = to_lowercase(cause);
    explain_start_error(c, cause, small.as_str(), macos)
}

// ---------------------------------------------------------------------------
// Laws
// ---------------------------------------------------------------------------

proof fn lemma_tcp_port(a: u16, b: u16)
    ensures
        tcp_port(a) == tcp_port(b) ==> a == b,
{
    if tcp_port(a) == tcp_port(b) {
        let (x, y) = (decimal(a as nat), decimal(b as nat));
        assert(tcp_port(a).len() == x.len() + "/tcp"@.len());
        assert(tcp_port(a).take(x.len() as int) =~= x);
        assert(tcp_port(b).take(y.len() as int) =~= y);
        law_decimal_injective(a as nat, b as nat);
    }
}

/// Every port of a container that is asked for is exposed and bound to a port of the host: to the last
/// one that is given for it.
pub proof fn law_ports_are_bound(ports: Seq<(u16, u16)>, i: int)
    requires
        0 <= i < ports.len(),
    ensures
        exposed(ports).contains(tcp_port(ports[i].1)),
        lookup(bindings(ports), tcp_port(ports[i].1)) is Some,
        (forall|j: int| i < j < ports.len() ==> (#[trigger] ports[j]).1 != ports[i].1) ==> lookup(
            bindings(ports),
            tcp_port(ports[i].1),
        ) == Some(ports[i].0),
    decreases ports.len(),
{
    assert(exposed(ports)[i] == tcp_port(ports[i].1));
    let d = ports.drop_last();
    let k = tcp_port(ports.last().1);
    law_put_then_lookup(bindings(d), k, ports.last().0, tcp_port(ports[i].1));
    lemma_tcp_port(ports[i].1, ports.last().1);
    if i < d.len() {
        law_ports_are_bound(d, i);
        assert(d[i] == ports[i]);
        if forall|j: int| i < j < ports.len() ==> (#[trigger] ports[j]).1 != ports[i].1 {
            assert forall|j: int| i < j < d.len() implies (#[trigger] d[j]).1 != d[i].1 by {
                assert(ports[j].1 != ports[i].1);
            }
            assert(ports[ports.len() - 1].1 != ports[i].1);
        }
    }
}

/// Every volume is mounted, in one way or the other: named volumes and those without options as a text,
/// others as a mount with what their options ask for.
pub proof fn law_volumes_are_mounted(v: Seq<(String, String, String)>, i: int)
    requires
        0 <= i < v.len(),
    ensures
        v[i].2@.len() == 0 || v[i].2@ == "volume"@ ==> bind_texts(v).contains(
            v[i].0@ + ":"@ + v[i].1@,
        ),
        v[i].2@.len() != 0 && v[i].2@ != "volume"@ ==> mounts_for(v).contains(
            (v[i].0@, v[i].1@, propagation_in(v[i].2@)),
        ),
        bind_texts(v).len() + mounts_for(v).len() == v.len(),
    decreases v.len(),
{
    let d = v.drop_last();
    let (a, b) = (bind_texts(d), bind_texts(v));
    let (m, n) = (mounts_for(d), mounts_for(v));
    if i < d.len() {
        law_volumes_are_mounted(d, i);
        assert(d[i] == v[i]);
        if is_bind(v[i].2@) {
            let t = v[i].0@ + ":"@ + v[i].1@;
            let k = choose|k: int| 0 <= k < a.len() && a[k] == t;
            assert(b[k] == t);
        } else {
            let t = (v[i].0@, v[i].1@, propagation_in(v[i].2@));
            let k = choose|k: int| 0 <= k < m.len() && m[k] == t;
            assert(n[k] == t);
        }
    } else {
        if d.len() > 0 {
            law_volumes_are_mounted(d, 0);
        }
        if is_bind(v[i].2@) {
            assert(b[a.len() as int] == v[i].0@ + ":"@ + v[i].1@);
        } else {
            assert(n[m.len() as int] == (v[i].0@, v[i].1@, propagation_in(v[i].2@)));
        }
    }
}

/// The data of Docker are shared in both directions where this is asked for.
pub proof fn law_propagation_is_taken_over()
    ensures
        propagation_in("bind-propagation=rshared"@) == Some(Propagation::Rshared),
        propagation_in("bind-propagation="@ + "shared"@) == Some(Propagation::Shared),
        propagation_in(Seq::empty()) is None,
{
    reveal_strlit("bind-propagation=rshared");
    reveal_strlit("bind-propagation=");
    reveal_strlit("rshared");
    reveal_strlit("shared");
    reveal_strlit("private");
    let o = "bind-propagation=rshared"@;
    let p = "bind-propagation="@;
    assert(o.subrange(0, 17) =~= p);
    assert(o.skip(17) =~= "rshared"@);
    assert("rshared"@.len() == 7 && "shared"@.len() == 6 && "private"@[0] == 'p');
    assert("rshared"@[0] == 'r');
    let q = p + "shared"@;
    assert(q.subrange(0, 17) =~= p);
    assert(q.skip(17) =~= "shared"@);
    assert("shared"@.len() != "private"@.len());
}

/// The ports that need privileges are those below 1024 among the ones that are asked for.
pub proof fn law_low_ports_are_named(ports: Seq<(u16, u16)>, i: int)
    requires
        0 <= i < ports.len(),
    ensures
        ports[i].0 < 1024 ==> low_ports(ports).contains(
            decimal(ports[i].0 as nat) + ":"@ + decimal(ports[i].1 as nat),
        ),
        low_ports(ports).len() <= ports.len(),
        (forall|j: int| 0 <= j < ports.len() ==> (#[trigger] ports[j]).0 >= 1024) ==> low_ports(
            ports,
        ).len() == 0,
    decreases ports.len(),
{
    let d = ports.drop_last();
    let (a, b) = (low_ports(d), low_ports(ports));
    assert(ports[ports.len() - 1] == ports.last());
    if forall|j: int| 0 <= j < ports.len() ==> (#[trigger] ports[j]).0 >= 1024 {
        assert forall|j: int| 0 <= j < d.len() implies (#[trigger] d[j]).0 >= 1024 by {
            assert(ports[j].0 >= 1024);
        }
    }
    if i < d.len() {
        law_low_ports_are_named(d, i);
        if ports[i].0 < 1024 {
            let t = decimal(ports[i].0 as nat) + ":"@ + decimal(ports[i].1 as nat);
            let k = choose|k: int| 0 <= k < a.len() && a[k] == t;
            assert(b[k] == t);
        }
    } else {
        if d.len() > 0 {
            law_low_ports_are_named(d, 0);
        }
        if ports[i].0 < 1024 {
            assert(b[a.len() as int] == decimal(ports[i].0 as nat) + ":"@ + decimal(
                ports[i].1 as nat,
            ));
        }
    }
}

/// What kept a container from starting is told, whatever it was, and so is its name; help is given
/// exactly where the cause speaks of ports.
pub proof fn law_start_errors_tell_the_cause(
    name: Seq<char>,
    ports: Seq<(u16, u16)>,
    cause: Seq<char>,
    small: Seq<char>,
    macos: bool,
)
    ensures
        ({
            let t = start_error(name, ports, cause, small, macos);
            &&& has_sub(t.message, name)
            &&& t.cause == Some(cause) || has_sub(t.message, cause)
            &&& t.cause is None <==> has_sub(small, "bind"@) || has_sub(
                small,
                "address already in use"@,
            ) || has_sub(small, "permission denied"@) || has_sub(small, "port is already allocated"@)
            &&& t.cause is None ==> crate::text::ends(
                t.message,
                if macos {
                    MACOS_PORT_HELP@
                } else {
                    PORT_HELP@
                },
            )
        }),
{
    let m = port_error(name, ports, cause, macos);
    let a = "Failed to start container '"@;
    let b = "': port binding error.\n\nError: "@;
    let head = a + name + b + cause + "\n\n"@;
    let low = low_ports(ports);
    let listed = if low.len() == 0 {
        head
    } else {
        head + "Privileged ports configured: "@ + joined(low, ", "@) + "\n\n"@
    };
    let help = if macos {
        MACOS_PORT_HELP@
    } else {
        PORT_HELP@
    };
    assert(m == listed + help);
    assert(m.subrange(m.len() - help.len(), m.len() as int) =~= help);
    let none = Seq::<char>::empty();
    let rest = if low.len() == 0 {
        help
    } else {
        "Privileged ports configured: "@ + joined(low, ", "@) + "\n\n"@ + help
    };
    assert(m =~= a + name + (b + cause + "\n\n"@ + rest));
    lemma_has_middle(a, name, b + cause + "\n\n"@ + rest, name);
    assert(m =~= (a + name + b) + cause + ("\n\n"@ + rest));
    lemma_has_middle(a + name + b, cause, "\n\n"@ + rest, cause);
    lemma_has_middle("Failed to start container "@, name, none, name);
    assert("Failed to start container "@ + name + none =~= "Failed to start container "@ + name);
}

/// What is asked of Docker is what was described: no part of it is lost, and what is empty is not
/// asked for.
pub proof fn law_requests_hold_what_was_described(
    b: ContainerBody,
    c: ContainerRunConfig,
    major: int,
    minor: int,
)
    requires
        requests(b, c, major, minor),
    ensures
        b.name@ == c.name@ && b.image@ == c.image@,
        b.privileged == c.privileged && b.pid_host == c.pid_host && b.auto_remove == c.auto_remove,
        b.start == c.detach,
        b.network_mode is Some <==> c.network is Some,
        c.network is Some ==> b.network_mode->0@ == c.network->0@,
        b.env is Some <==> settings(c.env@).len() > 0,
        b.binds is Some <==> bind_texts(c.volumes@).len() > 0,
        b.exposed_ports is Some <==> exposed(c.ports@).len() > 0,
        b.security_opt is Some <==> c.security_opt@.len() > 0,
        b.security_opt is Some ==> views(b.security_opt->0@) == views(c.security_opt@),
        b.cmd is Some <==> c.command is Some,
        c.command is Some ==> views(b.cmd->0@) == views(c.command->0@),
        b.entrypoint is Some <==> c.entrypoint is Some,
        c.entrypoint is Some && c.entrypoint->0@.len() > 0 ==> views(b.entrypoint->0@) == seq![
            c.entrypoint->0@,
        ],
        c.entrypoint is Some && c.entrypoint->0@.len() == 0 ==> views(b.entrypoint->0@).len() == 0,
        b.cgroupns_host ==> c.cgroupns_host,
        b.labels@ == c.labels@,
{
}

/// The control groups of the machine are asked for only from Docker's version 1.41 on.
pub proof fn law_control_groups_need_a_new_docker(major: int, minor: int)
    ensures
        major == 1 ==> (knows_cgroupns(major, minor) <==> minor >= 41),
        major >= 2 ==> knows_cgroupns(major, minor),
        major <= 0 ==> !knows_cgroupns(major, minor),
{
}

/// A propagation is asked for by its name behind its option, and any other name means a private one
/// that goes all the way down.
pub proof fn law_propagations_have_their_names(name: Seq<char>)
    ensures
        propagation_in("bind-propagation="@ + name) == Some(propagation_named(name)),
        name == "private"@ ==> propagation_named(name) == Propagation::Private,
        name == "shared"@ ==> propagation_named(name) == Propagation::Shared,
        name == "rshared"@ ==> propagation_named(name) == Propagation::Rshared,
        name == "slave"@ ==> propagation_named(name) == Propagation::Slave,
        name == "rslave"@ ==> propagation_named(name) == Propagation::Rslave,
        name == "rprivate"@ || name.len() == 0 || name.len() > 8 ==> propagation_named(name)
            == Propagation::Rprivate,
{
    reveal_strlit("private");
    reveal_strlit("shared");
    reveal_strlit("rshared");
    reveal_strlit("slave");
    reveal_strlit("rslave");
    reveal_strlit("rprivate");
    assert("private"@[0] == 'p' && "private"@.len() == 7);
    assert("rshared"@[0] == 'r' && "rshared"@.len() == 7);
    assert("shared"@[0] == 's' && "shared"@.len() == 6);
    assert("rslave"@[0] == 'r' && "rslave"@.len() == 6);
    assert("slave"@.len() == 5 && "rprivate"@.len() == 8);
    let p = "bind-propagation="@;
    let o = p + name;
    assert(o.subrange(0, p.len() as int) =~= p);
    assert(o.skip(p.len() as int) =~= name);
}

} // verus!
