//! What Docker's answers about itself, its containers and its images mean.

use vstd::prelude::*;
use std::collections::HashMap;
use crate::number::{
    decimal, digit, i64_text, law_decimal_reads_back, lemma_decimal, number_upto, parse_upto,
    signed_decimal,
};
use crate::text::{
    begins, debug_texts, lemma_pieces_head, lemma_pieces_nonempty, lemma_pieces_single, no_texts, opt_view, pieces, push_text,
    same, shown_list, split, starts_with, strip_start, stripped_start, trim, trimmed, views, with_text,
    add_once,
};
use crate::textmap::{lookup, put};

verus! {

/// An architecture for which this program is built.
#[derive(Debug, Clone, Copy, PartialEq, Eq, Structural)]
pub enum Arch {
    X86_64,
    Aarch64,
}

/// The name of an architecture.
pub open spec fn arch_name(a: Arch) -> Seq<char> {
    match a {
        Arch::X86_64 => "x86_64"@,
        Arch::Aarch64 => "aarch64"@,
    }
}

/// One name for each architecture that has several.
pub open spec fn normal_arch(s: Seq<char>) -> Seq<char> {
    if s == "x86_64"@ || s == "amd64"@ {
        "x86_64"@
    } else if s == "aarch64"@ || s == "arm64"@ {
        "aarch64"@
    } else {
        s
    }
}

/// The warning about a difference between the architectures of this program and of Docker.
pub open spec fn arch_warning(binary: Seq<char>, docker: Seq<char>) -> Seq<char> {
    "Architecture mismatch: k3dev binary is compiled for "@ + binary
        + " but Docker daemon reports "@ + docker
        + ". Embedded binaries (socat, agent) may not work in the container. Consider using a native "@
        + normal_arch(docker) + " build of k3dev."@
}

/// The warning to give where Docker runs on another architecture than this program was built for.
pub open spec fn arch_mismatch(binary: Option<Arch>, docker: Option<Seq<char>>) -> Option<
    Seq<char>,
> {
    match (binary, docker) {
        (Some(b), Some(d)) => if normal_arch(d) == arch_name(b) {
            None
        } else {
            Some(arch_warning(arch_name(b), d))
        },
        _ => None,
    }
}

fn name_of(a: Arch) -> (r: &'static str)
    ensures
        r@ == arch_name(a),
{
    match a {
        Arch::X86_64 => "x86_64",
        Arch::Aarch64 => "aarch64",
    }
}

/// The warning to give where Docker runs on another architecture than this program was built for.
/// Where either is unknown there is none.
pub fn check_architecture_mismatch(binary: Option<Arch>, docker: &Option<String>) -> (r: Option<
    String,
>)
    ensures
        opt_view(r) == arch_mismatch(binary, opt_view(*docker)),
{
    match (binary, docker) {
        (Some(b), Some(d)) => {
            let t = d.as_str();
            let normal = if same(t, "x86_64") || same(t, "amd64") {
                "x86_64"
            } else if same(t, "aarch64") || same(t, "arm64") {
                "aarch64"
            } else {
                t
            };
            let own = name_of(b);
            if same(own, normal) {
                None
            } else {
                let mut s =
                    "Architecture mismatch: k3dev binary is compiled for ".to_owned();
                s.append(own);
                s.append(" but Docker daemon reports ");
                s.append(t);
                s.append(
                    ". Embedded binaries (socat, agent) may not work in the container. Consider using a native ",
                );
                s.append(normal);
                s.append(" build of k3dev.");
                Some(s)
            }
        },
        _ => None,
    }
}

/// Where Docker keeps its data unless it says otherwise.
pub const DEFAULT_DOCKER_ROOT: &'static str = "/var/lib/docker";

/// Where Docker keeps its data: what it says, or the default.
pub fn get_docker_root_dir(said: &Option<String>) -> (r: String)
    ensures
        r@ == match *said {
            Some(d) => d@,
            None => DEFAULT_DOCKER_ROOT@,
        },
{
    match said {
        Some(d) => d.clone(),
        None => DEFAULT_DOCKER_ROOT.to_owned(),
    }
}

/// What to do about a control group driver that does not work here.
pub const CGROUP_DRIVER_HELP: &'static str =
    "Docker is using the 'systemd' cgroup driver, which is incompatible with k3dev.\n\nk3s runs inside a Docker container without systemd as init, so kubelet\ncannot use the systemd cgroup manager. Both Docker and kubelet must use\nthe 'cgroupfs' driver.\n\nTo fix, create or edit /etc/docker/daemon.json:\n\n{\n\"exec-opts\": [\"native.cgroupdriver=cgroupfs\"]\n}\n\nThen restart Docker:\n\nsudo systemctl restart docker\n\nNote: This only affects cgroup accounting, not Docker functionality.";

/// Fails where Docker uses the control group driver of systemd. A driver that is not known is no
/// obstacle.
pub fn check_cgroup_driver(driver: &Option<String>) -> (r: Result<(), String>)
    ensures
        r is Err <==> opt_view(*driver) == Some("systemd"@),
        r matches Err(e) ==> e@ == CGROUP_DRIVER_HELP@,
{
    match driver {
        Some(d) => if same(d.as_str(), "systemd") {
            Err(CGROUP_DRIVER_HELP.to_owned())
        } else {
            Ok(())
        },
        None => Ok(()),
    }
}

/// How often Docker is asked again whether it answers, a second apart.
pub const PING_RETRIES: u32 = 3;

/// What to do after asking Docker whether it answers.
#[derive(Debug, Clone, Copy, PartialEq, Eq, Structural)]
pub enum PingNext {
    /// Ask again after so many seconds.
    Retry(u64),
    Accessible,
    NotAccessible,
}

/// What to do after asking Docker for the `attempt`th time, counted from 0.
pub fn is_accessible(attempt: u32, answered: bool) -> (r: PingNext)
    ensures
        r is Accessible <==> answered,
        r is NotAccessible <==> !answered && attempt >= 3,
        r == if answered {
            PingNext::Accessible
        } else if attempt < PING_RETRIES {
            PingNext::Retry(1)
        } else {
            PingNext::NotAccessible
        },
{
    if answered {
        PingNext::Accessible
    } else if attempt < PING_RETRIES {
        PingNext::Retry(1)
    } else {
        PingNext::NotAccessible
    }
}

/// The outcome of a command in a container: its output, or the reason why it failed. A command
/// without an exit code did not fail.
pub fn exec_in_container(command: &Vec<String>, code: Option<i64>, output: String) -> (r: Result<
    String,
    String,
>)
    ensures
        r is Ok <==> code is None || code == Some(0i64),
        r matches Ok(t) ==> t@ == output@,
        match code {
            Some(c) => if c != 0 {
                r matches Err(e) && e@ == "Command "@ + shown_list(views(command@))
                    + " exited with code "@ + signed_decimal(c as int) + ": "@ + trimmed(output@)
            } else {
                r == Ok::<String, String>(output)
            },
            None => r == Ok::<String, String>(output),
        },
{
    if let Some(c) = code {
        if c != 0 {
            let mut s = "Command ".to_owned();
            s.append(debug_texts(command).as_str());
            s.append(" exited with code ");
            s.append(i64_text(c).as_str());
            s.append(": ");
            s.append(trim(output.as_str()).as_str());
            return Err(s);
        }
    }
    Ok(output)
}

// ---------------------------------------------------------------------------
// Published ports
// ---------------------------------------------------------------------------

/// The port of a container in a notation such as `80/tcp`; 0 where there is none.
pub open spec fn container_port(s: Seq<char>) -> u16 {
    match number_upto(pieces(s, '/')[0], 65535) {
        Some(n) => n as u16,
        None => 0,
    }
}

/// The ports of the host that a list of bindings holds, entered for a port of the container.
pub open spec fn with_bindings(m: Map<u16, u16>, port: u16, hosts: Seq<Option<String>>) -> Map<
    u16,
    u16,
>
    decreases hosts.len(),
{
    if hosts.len() == 0 {
        m
    } else {
        let before = with_bindings(m, port, hosts.drop_last());
        match hosts.last() {
            Some(h) => match number_upto(h@, 65535) {
                Some(n) => before.insert(port, n as u16),
                None => before,
            },
            None => before,
        }
    }
}

/// The port of the host for each published port of a container. Of several for one port of the
/// container, the last.
pub open spec fn published(ports: Seq<(String, Option<Vec<Option<String>>>)>) -> Map<u16, u16>
    decreases ports.len(),
{
    if ports.len() == 0 {
        Map::empty()
    } else {
        let before = published(ports.drop_last());
        let port = container_port(ports.last().0@);
        match ports.last().1 {
            Some(hosts) => if port == 0 {
                before
            } else {
                with_bindings(before, port, hosts@)
            },
            None => before,
        }
    }
}

fn port_in(s: &str) -> (r: u16)
    ensures
        r == container_port(s@),
{
    let parts = split(s, '/');
    proof {
        lemma_pieces_nonempty(s@, '/');
    }
    assert(views(parts@).len() == parts@.len());
    assert(views(parts@)[0] == parts@[0]@);
    match parse_upto(parts[0].as_str(), 65535) {
        Some(n) => n as u16,
        None => 0,
    }
}

fn add_bindings(m: &mut HashMap<u16, u16>, port: u16, hosts: &Vec<Option<String>>)
    ensures
        final(m)@ == with_bindings(old(m)@, port, hosts@),
{
    broadcast use vstd::std_specs::hash::group_hash_axioms;

    let ghost before = m@;
    let mut i: usize = 0;
    assert(hosts@.take(0) =~= Seq::<Option<String>>::empty());
    while i < hosts.len()
        invariant
            i <= hosts@.len(),
            m@ == with_bindings(before, port, hosts@.take(i as int)),
        decreases hosts@.len() - i,
    {
        broadcast use vstd::std_specs::hash::group_hash_axioms;

        assert(hosts@.take(i + 1).drop_last() =~= hosts@.take(i as int));
        assert(hosts@.take(i + 1).last() == hosts@[i as int]);
        if let Some(h) = &hosts[i] {
            if let Some(n) = parse_upto(h.as_str(), 65535) {
                let _ = m.insert(port, n as u16);
            }
        }
        i = i + 1;
    }
    assert(hosts@.take(i as int) =~= hosts@);
}

/// The port of the host for each published port of a container, given the bindings of each.
pub fn get_container_ports(ports: &Vec<(String, Option<Vec<Option<String>>>)>) -> (r: HashMap<
    u16,
    u16,
>)
    ensures
        r@ == published(ports@),
{
    broadcast use vstd::std_specs::hash::group_hash_axioms;

    let mut m: HashMap<u16, u16> = HashMap::new();
    let mut i: usize = 0;
    assert(ports@.take(0) =~= Seq::<(String, Option<Vec<Option<String>>>)>::empty());
    assert(m@ =~= Map::<u16, u16>::empty());
    while i < ports.len()
        invariant
            i <= ports@.len(),
            m@ == published(ports@.take(i as int)),
        decreases ports@.len() - i,
    {
        assert(ports@.take(i + 1).drop_last() =~= ports@.take(i as int));
        assert(ports@.take(i + 1).last() == ports@[i as int]);
        let port: u16 = port_in(ports[i].0.as_str());
        if port != 0 {
            if let Some(hosts) = &ports[i].1 {
                add_bindings(&mut m, port, hosts);
            }
        }
        i = i + 1;
    }
    assert(ports@.take(i as int) =~= ports@);
    m
}

// ---------------------------------------------------------------------------
// Names of containers
// ---------------------------------------------------------------------------

/// The names of containers that begin with a text, without the slashes before them.
pub open spec fn names_with_prefix(names: Seq<Seq<char>>, prefix: Seq<char>) -> Seq<Seq<char>>
    decreases names.len(),
{
    if names.len() == 0 {
        Seq::empty()
    } else {
        let known = names_with_prefix(names.drop_last(), prefix);
        let name = stripped_start(names.last(), '/');
        if begins(name, prefix) {
            known.push(name)
        } else {
            known
        }
    }
}

/// The names of containers that begin with a text, without the slashes before them. Docker is
/// asked for names that hold the text, so others may be among those that it lists.
pub fn list_containers_by_prefix(names: &Vec<String>, prefix: &str) -> (r: Vec<String>)
    ensures
        views(r@) == names_with_prefix(views(names@), prefix@),
{
    let mut out = no_texts();
    let ghost all = views(names@);
    let mut i: usize = 0;
    assert(all.take(0) =~= Seq::<Seq<char>>::empty());
    while i < names.len()
        invariant
            i <= names@.len(),
            all == views(names@),
            views(out@) == names_with_prefix(all.take(i as int), prefix@),
        decreases names@.len() - i,
    {
        assert(all.take(i + 1).drop_last() =~= all.take(i as int));
        assert(all.take(i + 1).last() == names@[i as int]@);
        let s = strip_start(names[i].as_str(), '/');
        if starts_with(s.as_str(), prefix) {
            push_text(&mut out, s.as_str());
        }
        i = i + 1;
    }
    assert(all.take(i as int) =~= all);
    out
}

/// A volume of a container.
#[derive(Debug, Clone)]
pub struct MountSource {
    pub source: String,
}

/// A container of a pod with its volumes.
#[derive(Debug)]
pub struct ContainerMountInfo {
    pub pod_name: String,
    pub mounts: Vec<MountSource>,
}

/// A container as Docker lists it: its first name and the sources of its mounts.
#[derive(Debug)]
pub struct ListedContainer {
    pub name: Option<String>,
    pub mounts: Vec<Option<String>>,
}

/// A container of a pod, as a value.
pub type MountInfoView = (Seq<char>, Seq<Seq<char>>);

/// Containers of pods, as values.
pub open spec fn info_views(v: Seq<ContainerMountInfo>) -> Seq<MountInfoView> {
    Seq::new(v.len(), |i: int| (v[i].pod_name@, source_views(v[i].mounts@)))
}

/// The sources of volumes.
pub open spec fn source_views(v: Seq<MountSource>) -> Seq<Seq<char>> {
    Seq::new(v.len(), |i: int| v[i].source@)
}

/// The texts that are there.
pub open spec fn present(v: Seq<Option<String>>) -> Seq<Seq<char>>
    decreases v.len(),
{
    if v.len() == 0 {
        Seq::empty()
    } else {
        match v.last() {
            Some(s) => present(v.drop_last()).push(s@),
            None => present(v.drop_last()),
        }
    }
}

/// The name of a listed container without the slashes before it; empty where it has none.
pub open spec fn bare_name(name: Option<String>) -> Seq<char> {
    match name {
        Some(n) => stripped_start(n@, '/'),
        None => Seq::empty(),
    }
}

/// The containers whose names are those of pods' containers,
/// `k8s_{container}_{pod}_{namespace}_...`, with their volumes.
pub open spec fn pod_containers(v: Seq<ListedContainer>) -> Seq<MountInfoView>
    decreases v.len(),
{
    if v.len() == 0 {
        Seq::empty()
    } else {
        let before = pod_containers(v.drop_last());
        let parts = pieces(bare_name(v.last().name), '_');
        if parts.len() < 4 {
            before
        } else {
            before.push((parts[2], present(v.last().mounts@)))
        }
    }
}

fn name_without_slashes(name: &Option<String>) -> (r: String)
    ensures
        r@ == bare_name(*name),
{
    match name {
        Some(n) => strip_start(n.as_str(), '/'),
        None => String::new(),
    }
}

fn sources(v: &Vec<Option<String>>) -> (r: Vec<MountSource>)
    ensures
        source_views(r@) == present(v@),
{
    let mut out: Vec<MountSource> = Vec::new();
    let mut i: usize = 0;
    assert(v@.take(0) =~= Seq::<Option<String>>::empty());
    assert(source_views(out@) =~= Seq::<Seq<char>>::empty());
    while i < v.len()
        invariant
            i <= v@.len(),
            source_views(out@) == present(v@.take(i as int)),
        decreases v@.len() - i,
    {
        assert(v@.take(i + 1).drop_last() =~= v@.take(i as int));
        assert(v@.take(i + 1).last() == v@[i as int]);
        if let Some(s) = &v[i] {
            let ghost before = source_views(out@);
            out.push(MountSource { source: s.clone() });
            assert(source_views(out@) =~= before.push(s@));
        }
        i = i + 1;
    }
    assert(v@.take(i as int) =~= v@);
    out
}

/// The containers of pods with their volumes.
pub fn list_containers_with_mounts(v: &Vec<ListedContainer>) -> (r: Vec<ContainerMountInfo>)
    ensures
        info_views(r@) == pod_containers(v@),
{
    let mut out: Vec<ContainerMountInfo> = Vec::new();
    let mut i: usize = 0;
    assert(v@.take(0) =~= Seq::<ListedContainer>::empty());
    assert(info_views(out@) =~= Seq::<MountInfoView>::empty());
    while i < v.len()
        invariant
            i <= v@.len(),
            info_views(out@) == pod_containers(v@.take(i as int)),
        decreases v@.len() - i,
    {
        assert(v@.take(i + 1).drop_last() =~= v@.take(i as int));
        assert(v@.take(i + 1).last() == v@[i as int]);
        let name = name_without_slashes(&v[i].name);
        let parts = split(name.as_str(), '_');
        assert(views(parts@).len() == parts@.len());
        if parts.len() >= 4 {
            let ghost before = info_views(out@);
            assert(views(parts@)[2] == parts@[2]@);
            let info = ContainerMountInfo {
                pod_name: parts[2].clone(),
                mounts: sources(&v[i].mounts),
            };
            let ghost row = (info.pod_name@, source_views(info.mounts@));
            out.push(info);
            assert(info_views(out@) =~= before.push(row));
        }
        i = i + 1;
    }
    assert(v@.take(i as int) =~= v@);
    out
}

// ---------------------------------------------------------------------------
// Architectures of images
// ---------------------------------------------------------------------------

/// The key `namespace/pod` of a container with this name, where it is one of a pod and no pause
/// container.
pub open spec fn workload_key(name: Seq<char>) -> Option<Seq<char>> {
    let parts = pieces(name, '_');
    if begins(name, "k8s_"@) && !begins(name, "k8s_POD_"@) && parts.len() >= 4 {
        Some(parts[3] + "/"@ + parts[2])
    } else {
        None
    }
}

/// The image of each pod, given names and images of containers. Of several containers of a pod,
/// the last counts.
pub open spec fn pod_images(v: Seq<(Option<String>, Option<String>)>) -> Seq<(Seq<char>, Seq<char>)>
    decreases v.len(),
{
    if v.len() == 0 {
        Seq::empty()
    } else {
        let before = pod_images(v.drop_last());
        match (workload_key(bare_name(v.last().0)), v.last().1) {
            (Some(k), Some(image)) => if image@.len() == 0 {
                before
            } else {
                put(before, k, image@)
            },
            _ => before,
        }
    }
}

/// Pairs of texts, as values.
pub open spec fn pair_views(v: Seq<(String, String)>) -> Seq<(Seq<char>, Seq<char>)> {
    Seq::new(v.len(), |i: int| (v[i].0@, v[i].1@))
}

/// The images of pods, each once.
pub open spec fn images_once(v: Seq<(Seq<char>, Seq<char>)>) -> Seq<Seq<char>>
    decreases v.len(),
{
    if v.len() == 0 {
        Seq::empty()
    } else {
        with_text(images_once(v.drop_last()), v.last().1)
    }
}

/// The architecture of each pod's image, where it is known.
pub open spec fn pod_archs(
    pods: Seq<(Seq<char>, Seq<char>)>,
    archs: Seq<(Seq<char>, Seq<char>)>,
) -> Seq<(Seq<char>, Seq<char>)>
    decreases pods.len(),
{
    if pods.len() == 0 {
        Seq::empty()
    } else {
        let before = pod_archs(pods.drop_last(), archs);
        match lookup(archs, pods.last().1) {
            Some(a) => before.push((pods.last().0, a)),
            None => before,
        }
    }
}

fn key_of(name: &str) -> (r: Option<String>)
    ensures
        opt_view(r) == workload_key(name@),
{
    if starts_with(name, "k8s_") && !starts_with(name, "k8s_POD_") {
        let parts = split(name, '_');
        assert(views(parts@).len() == parts@.len());
        if parts.len() >= 4 {
            assert(views(parts@)[3] == parts@[3]@);
            assert(views(parts@)[2] == parts@[2]@);
            let mut s = parts[3].clone();
            s.append("/");
            s.append(parts[2].as_str());
            return Some(s);
        }
    }
    None
}

fn put_pair(m: &mut Vec<(String, String)>, k: String, v: String)
    ensures
        pair_views(final(m)@) == put(pair_views(old(m)@), k@, v@),
{
    let ghost before = pair_views(m@);
    let ghost row = (k@, v@);
    proof {
        crate::textmap::lemma_key_index(before, k@);
    }
    let mut i: usize = 0;
    while i < m.len()
        invariant
            i <= m@.len(),
            before == pair_views(m@),
            before == pair_views(old(m)@),
            row == (k@, v@),
            forall|j: int| 0 <= j < i ==> (#[trigger] before[j]).0 != k@,
            0 <= crate::textmap::key_index(before, k@) <= before.len(),
            forall|j: int|
                0 <= j < crate::textmap::key_index(before, k@) ==> (#[trigger] before[j]).0 != k@,
            crate::textmap::key_index(before, k@) < before.len()
                ==> before[crate::textmap::key_index(before, k@)].0 == k@,
        decreases m@.len() - i,
    {
        assert(before[i as int].0 == m@[i as int].0@);
        if same(m[i].0.as_str(), k.as_str()) {
            m.set(i, (k, v));
            assert(pair_views(m@) =~= before.update(i as int, row));
            return;
        }
        i = i + 1;
    }
    m.push((k, v));
    assert(pair_views(m@) =~= before.push(row));
}

/// The image of each pod, given names and images of the running containers.
pub fn images_of_pods(v: &Vec<(Option<String>, Option<String>)>) -> (r: Vec<(String, String)>)
    ensures
        pair_views(r@) == pod_images(v@),
{
    let mut out: Vec<(String, String)> = Vec::new();
    let mut i: usize = 0;
    assert(v@.take(0) =~= Seq::<(Option<String>, Option<String>)>::empty());
    assert(pair_views(out@) =~= Seq::<(Seq<char>, Seq<char>)>::empty());
    while i < v.len()
        invariant
            i <= v@.len(),
            pair_views(out@) == pod_images(v@.take(i as int)),
        decreases v@.len() - i,
    {
        assert(v@.take(i + 1).drop_last() =~= v@.take(i as int));
        assert(v@.take(i + 1).last() == v@[i as int]);
        let name = name_without_slashes(&v[i].0);
        if let Some(k) = key_of(name.as_str()) {
            if let Some(image) = &v[i].1 {
                if !image.as_str().is_empty() {
                    put_pair(&mut out, k, image.clone());
                }
            }
        }
        i = i + 1;
    }
    assert(v@.take(i as int) =~= v@);
    out
}

/// The images to inspect: those of pods, each once.
pub fn images_to_inspect(pods: &Vec<(String, String)>) -> (r: Vec<String>)
    ensures
        views(r@) == images_once(pair_views(pods@)),
{
    let mut out = no_texts();
    let ghost all = pair_views(pods@);
    let mut i: usize = 0;
    assert(all.take(0) =~= Seq::<(Seq<char>, Seq<char>)>::empty());
    while i < pods.len()
        invariant
            i <= pods@.len(),
            all == pair_views(pods@),
            views(out@) == images_once(all.take(i as int)),
        decreases pods@.len() - i,
    {
        assert(all.take(i + 1).drop_last() =~= all.take(i as int));
        assert(all.take(i + 1).last() == (pods@[i as int].0@, pods@[i as int].1@));
        add_once(&mut out, pods[i].1.as_str());
        i = i + 1;
    }
    assert(all.take(i as int) =~= all);
    out
}

/// The architecture of each pod's image, given those of the images that could be inspected.
pub fn get_pod_image_architectures(pods: &Vec<(String, String)>, archs: &Vec<(String, String)>)
    -> (r: Vec<(String, String)>)
    ensures
        pair_views(r@) == pod_archs(pair_views(pods@), pair_views(archs@)),
{
    let mut out: Vec<(String, String)> = Vec::new();
    let ghost all = pair_views(pods@);
    let ghost known = pair_views(archs@);
    let mut i: usize = 0;
    assert(all.take(0) =~= Seq::<(Seq<char>, Seq<char>)>::empty());
    assert(pair_views(out@) =~= Seq::<(Seq<char>, Seq<char>)>::empty());
    while i < pods.len()
        invariant
            i <= pods@.len(),
            all == pair_views(pods@),
            known == pair_views(archs@),
            pair_views(out@) == pod_archs(all.take(i as int), known),
        decreases pods@.len() - i,
    {
        assert(all.take(i + 1).drop_last() =~= all.take(i as int));
        assert(all.take(i + 1).last() == (pods@[i as int].0@, pods@[i as int].1@));
        if let Some(a) = find_pair(archs, pods[i].1.as_str()) {
            let ghost before = pair_views(out@);
            let ghost row = (pods@[i as int].0@, a@);
            out.push((pods[i].0.clone(), a));
            assert(pair_views(out@) =~= before.push(row));
        }
        i = i + 1;
    }
    assert(all.take(i as int) =~= all);
    out
}

/// The second text of the first pair with `k` as its first.
pub fn find_pair(m: &Vec<(String, String)>, k: &str) -> (r: Option<String>)
    ensures
        opt_view(r) == lookup(pair_views(m@), k@),
{
    let ghost all = pair_views(m@);
    proof {
        crate::textmap::lemma_key_index(all, k@);
    }
    let mut i: usize = 0;
    while i < m.len()
        invariant
            i <= m@.len(),
            all == pair_views(m@),
            forall|j: int| 0 <= j < i ==> (#[trigger] all[j]).0 != k@,
            0 <= crate::textmap::key_index(all, k@) <= all.len(),
            forall|j: int|
                0 <= j < crate::textmap::key_index(all, k@) ==> (#[trigger] all[j]).0 != k@,
            crate::textmap::key_index(all, k@) < all.len() ==> all[crate::textmap::key_index(
                all,
                k@,
            )].0 == k@,
        decreases m@.len() - i,
    {
        assert(all[i as int] == (m@[i as int].0@, m@[i as int].1@));
        if same(m[i].0.as_str(), k) {
            return Some(m[i].1.clone());
        }
        i = i + 1;
    }
    None
}

// ---------------------------------------------------------------------------
// Images
// ---------------------------------------------------------------------------

/// The tags that begin with `pattern`.
pub open spec fn matching(tags: Seq<Seq<char>>, pattern: Seq<char>) -> Seq<Seq<char>>
    decreases tags.len(),
{
    if tags.len() == 0 {
        Seq::empty()
    } else if begins(tags.last(), pattern) {
        matching(tags.drop_last(), pattern).push(tags.last())
    } else {
        matching(tags.drop_last(), pattern)
    }
}

/// The tags that begin with `pattern`.
pub fn list_images_by_pattern(tags: &Vec<String>, pattern: &str) -> (r: Vec<String>)
    ensures
        views(r@) == matching(views(tags@), pattern@),
{
    let mut out = no_texts();
    let ghost all = views(tags@);
    let mut i: usize = 0;
    assert(all.take(0) =~= Seq::<Seq<char>>::empty());
    while i < tags.len()
        invariant
            i <= tags@.len(),
            all == views(tags@),
            views(out@) == matching(all.take(i as int), pattern@),
        decreases tags@.len() - i,
    {
        assert(all.take(i + 1).drop_last() =~= all.take(i as int));
        assert(all.take(i + 1).last() == tags@[i as int]@);
        if starts_with(tags[i].as_str(), pattern) {
            push_text(&mut out, tags[i].as_str());
        }
        i = i + 1;
    }
    assert(all.take(i as int) =~= all);
    out
}

// ---------------------------------------------------------------------------
// Laws
// ---------------------------------------------------------------------------

/// Port 0 is never reported as published.
pub proof fn law_port_zero_is_not_published(ports: Seq<(String, Option<Vec<Option<String>>>)>)
    ensures
        !published(ports).dom().contains(0u16),
    decreases ports.len(),
{
    if ports.len() > 0 {
        law_port_zero_is_not_published(ports.drop_last());
        let port = container_port(ports.last().0@);
        if let Some(hosts) = ports.last().1 {
            if port != 0 {
                lemma_bindings_domain(published(ports.drop_last()), port, hosts@);
            }
        }
    }
}

proof fn lemma_bindings_domain(m: Map<u16, u16>, port: u16, hosts: Seq<Option<String>>)
    requires
        port != 0,
        !m.dom().contains(0u16),
    ensures
        !with_bindings(m, port, hosts).dom().contains(0u16),
    decreases hosts.len(),
{
    if hosts.len() > 0 {
        lemma_bindings_domain(m, port, hosts.drop_last());
    }
}

/// Architectures that have two names are the same under both, and different ones are told apart: there
/// is a warning exactly where both are known and differ.
pub proof fn law_architectures_are_told_apart(binary: Arch, docker: Seq<char>)
    ensures
        arch_mismatch(Some(Arch::X86_64), Some(docker)) is None <==> docker == "x86_64"@ || docker
            == "amd64"@,
        arch_mismatch(Some(Arch::Aarch64), Some(docker)) is None <==> docker == "aarch64"@ || docker
            == "arm64"@,
        arch_mismatch(None, Some(docker)) is None,
        arch_mismatch(Some(binary), None) is None,
        arch_mismatch(Some(binary), Some(docker)) matches Some(w) ==> crate::text::has_sub(w, docker),
{
    reveal_strlit("x86_64");
    reveal_strlit("amd64");
    reveal_strlit("aarch64");
    reveal_strlit("arm64");
    assert("x86_64"@.len() == 6 && "aarch64"@.len() == 7);
    assert("amd64"@.len() == 5 && "arm64"@.len() == 5);
    assert("amd64"@[1] == 'm' && "arm64"@[1] == 'r');
    let b = arch_name(binary);
    let a1 = "Architecture mismatch: k3dev binary is compiled for "@ + b
        + " but Docker daemon reports "@;
    let a2 =
        ". Embedded binaries (socat, agent) may not work in the container. Consider using a native "@
        + normal_arch(docker) + " build of k3dev."@;
    crate::text::lemma_has_middle(a1, docker, a2, docker);
    assert(arch_warning(b, docker) =~= a1 + docker + a2);
}

/// A port of a container is found in its notation, with or without what follows a slash.
pub proof fn law_container_port_reads_back(p: u16, rest: Seq<char>)
    ensures
        container_port(decimal(p as nat)) == p,
        container_port(decimal(p as nat).push('/') + rest) == p,
{
    let d = decimal(p as nat);
    lemma_decimal(p as nat);
    assert(!d.contains('/')) by {
        if d.contains('/') {
            let i = choose|i: int| 0 <= i < d.len() && d[i] == '/';
            assert(digit(d[i]));
        }
    }
    lemma_pieces_single(d, '/');
    lemma_pieces_head(d, '/', rest);
    law_decimal_reads_back(p as nat, 65535);
    assert(pieces(d, '/')[0] == d);
    assert(pieces(d.push('/') + rest, '/')[0] == d);
}

/// A port of a container that is bound to a port of the host is published on it; without bindings, or
/// with none that can be read, nothing changes.
pub proof fn law_bound_ports_are_published(
    ports: Seq<(String, Option<Vec<Option<String>>>)>,
    other: u16,
)
    requires
        ports.len() > 0,
    ensures
        ({
            let before = published(ports.drop_last());
            let p = container_port(ports.last().0@);
            &&& ports.last().1 is None || p == 0 ==> published(ports) == before
            &&& ports.last().1 matches Some(hosts) ==> (hosts@.len() > 0 && p != 0 ==> (
            hosts@.last() matches Some(h) ==> (number_upto(h@, 65535) matches Some(n) ==> published(
                ports,
            ).dom().contains(p) && published(ports)[p] == n)))
            &&& other != p ==> (published(ports).dom().contains(other) <==> before.dom().contains(
                other,
            ))
            &&& other != p && before.dom().contains(other) ==> published(ports)[other]
                == before[other]
        }),
{
    let before = published(ports.drop_last());
    let p = container_port(ports.last().0@);
    if let Some(hosts) = ports.last().1 {
        lemma_bindings_elsewhere(before, p, hosts@, other);
        if hosts@.len() > 0 {
            if let Some(h) = hosts@.last() {
                if let Some(n) = number_upto(h@, 65535) {
                    lemma_number_upto(h@, 65535);
                }
            }
        }
    }
}

proof fn lemma_bindings_elsewhere(
    m: Map<u16, u16>,
    port: u16,
    hosts: Seq<Option<String>>,
    other: u16,
)
    ensures
        other != port ==> (with_bindings(m, port, hosts).dom().contains(other)
            <==> m.dom().contains(other)),
        other != port && m.dom().contains(other) ==> with_bindings(m, port, hosts)[other]
            == m[other],
    decreases hosts.len(),
{
    if hosts.len() > 0 {
        lemma_bindings_elsewhere(m, port, hosts.drop_last(), other);
    }
}

proof fn lemma_number_upto(s: Seq<char>, max: nat)
    ensures
        number_upto(s, max) matches Some(n) ==> n <= max,
{
}

/// The containers that are listed by a prefix are those whose names begin with it, slashes before them
/// aside.
pub proof fn law_prefix_decides(names: Seq<Seq<char>>, prefix: Seq<char>, x: Seq<char>)
    ensures
        names_with_prefix(names, prefix).contains(x) <==> begins(x, prefix) && exists|i: int|
            0 <= i < names.len() && stripped_start(#[trigger] names[i], '/') == x,
        names_with_prefix(names, prefix).len() <= names.len(),
    decreases names.len(),
{
    if names.len() > 0 {
        let d = names.drop_last();
        let a = names_with_prefix(d, prefix);
        let b = names_with_prefix(names, prefix);
        law_prefix_decides(d, prefix, x);
        assert(names[names.len() - 1] == names.last());
        if b.contains(x) {
            let k = choose|k: int| 0 <= k < b.len() && b[k] == x;
            if k < a.len() {
                assert(a[k] == x);
                let i = choose|i: int|
                    0 <= i < d.len() && stripped_start(#[trigger] d[i], '/') == x;
                assert(names[i] == d[i]);
            } else {
                assert(stripped_start(names[names.len() - 1], '/') == x);
            }
        }
        if begins(x, prefix) && (exists|i: int|
            0 <= i < names.len() && stripped_start(#[trigger] names[i], '/') == x) {
            let i = choose|i: int|
                0 <= i < names.len() && stripped_start(#[trigger] names[i], '/') == x;
            if i < d.len() {
                assert(d[i] == names[i]);
                let k = choose|k: int| 0 <= k < a.len() && a[k] == x;
                assert(b[k] == x);
            } else {
                assert(b[a.len() as int] == x);
            }
        }
    }
}

/// The images that are listed by a pattern are those that begin with it.
pub proof fn law_pattern_decides(tags: Seq<Seq<char>>, pattern: Seq<char>, x: Seq<char>)
    ensures
        matching(tags, pattern).contains(x) <==> tags.contains(x) && begins(x, pattern),
        matching(tags, pattern).len() <= tags.len(),
    decreases tags.len(),
{
    if tags.len() > 0 {
        let d = tags.drop_last();
        let a = matching(d, pattern);
        let b = a.push(tags.last());
        law_pattern_decides(d, pattern, x);
        assert(tags[tags.len() - 1] == tags.last());
        assert(b[a.len() as int] == tags.last());
        if a.contains(x) {
            let k = choose|k: int| 0 <= k < a.len() && a[k] == x;
            assert(b[k] == x);
        }
        if b.contains(x) && x != tags.last() {
            let k = choose|k: int| 0 <= k < b.len() && b[k] == x;
            assert(a[k] == x);
        }
        if d.contains(x) {
            let k = choose|k: int| 0 <= k < d.len() && d[k] == x;
            assert(tags[k] == x);
        }
        if tags.contains(x) && x != tags.last() {
            let k = choose|k: int| 0 <= k < tags.len() && tags[k] == x;
            assert(d[k] == x);
        }
    }
}

/// A container of a pod gives the key of its pod, and pause containers and others give none.
pub proof fn law_workloads_have_keys(
    container: Seq<char>,
    pod: Seq<char>,
    namespace: Seq<char>,
    rest: Seq<char>,
)
    requires
        container.len() > 0,
        !container.contains('_'),
        !pod.contains('_'),
        !namespace.contains('_'),
    ensures
        ({
            let name = "k8s_"@ + container + "_"@ + pod + "_"@ + namespace + "_"@ + rest;
            workload_key(name) == if container == "POD"@ {
                None
            } else {
                Some(namespace + "/"@ + pod)
            }
        }),
{
    reveal_strlit("k8s_");
    reveal_strlit("_");
    reveal_strlit("POD");
    reveal_strlit("k8s_POD_");
    let name = "k8s_"@ + container + "_"@ + pod + "_"@ + namespace + "_"@ + rest;
    let k = seq!['k', '8', 's'];
    let r3 = namespace.push('_') + rest;
    let r2 = pod.push('_') + r3;
    let r1 = container.push('_') + r2;
    assert(name =~= k.push('_') + r1);
    lemma_pieces_head(k, '_', r1);
    lemma_pieces_head(container, '_', r2);
    lemma_pieces_head(pod, '_', r3);
    lemma_pieces_head(namespace, '_', rest);
    lemma_pieces_nonempty(rest, '_');
    assert(name.subrange(0, 4) =~= "k8s_"@);
    assert(pieces(name, '_') =~= seq![k, container, pod, namespace] + pieces(rest, '_'));
    let pause = "k8s_POD_"@;
    if container == "POD"@ {
        assert(name.subrange(0, 8) =~= pause);
    } else if begins(name, pause) {
        assert(name.subrange(0, 8) == pause);
        assert forall|i: int| 0 <= i < 8 implies name[i] == pause[i] by {
            assert(name.subrange(0, 8)[i] == name[i]);
        }
        assert(name[7] == '_');
        if container.len() < 3 {
            assert(name[4 + container.len() as int] == '_');
        } else if container.len() > 3 {
            assert(container[3] == name[7]);
            assert(container.contains('_'));
        } else {
            assert(container =~= "POD"@) by {
                assert(container[0] == name[4] && container[1] == name[5] && container[2] == name[6]);
            }
        }
    }
}

/// A pod has the image of a container of it, and an image is looked at once.
pub proof fn law_images_are_looked_at_once(v: Seq<(Seq<char>, Seq<char>)>, x: Seq<char>)
    ensures
        images_once(v).contains(x) <==> exists|i: int| 0 <= i < v.len() && (#[trigger] v[i]).1 == x,
        images_once(v).no_duplicates(),
    decreases v.len(),
{
    if v.len() > 0 {
        let d = v.drop_last();
        let y = v.last().1;
        let a = images_once(d);
        law_images_are_looked_at_once(d, x);
        assert(v[v.len() - 1] == v.last());
        assert(a.push(y)[a.len() as int] == y);
        if a.contains(x) {
            let k = choose|k: int| 0 <= k < a.len() && a[k] == x;
            assert(a.push(y)[k] == x);
            let i = choose|i: int| 0 <= i < d.len() && (#[trigger] d[i]).1 == x;
            assert(v[i] == d[i]);
        }
        if a.push(y).contains(x) && x != y {
            let k = choose|k: int| 0 <= k < a.push(y).len() && a.push(y)[k] == x;
            assert(a[k] == x);
        }
        if exists|i: int| 0 <= i < v.len() && (#[trigger] v[i]).1 == x {
            let i = choose|i: int| 0 <= i < v.len() && (#[trigger] v[i]).1 == x;
            if i < d.len() {
                assert(d[i] == v[i]);
            }
        }
    }
}

/// A pod has the architecture of its image, where that is known, and no other.
pub proof fn law_pods_have_their_images_architecture(
    pods: Seq<(Seq<char>, Seq<char>)>,
    archs: Seq<(Seq<char>, Seq<char>)>,
    x: (Seq<char>, Seq<char>),
)
    ensures
        pod_archs(pods, archs).contains(x) <==> exists|i: int|
            0 <= i < pods.len() && (#[trigger] pods[i]).0 == x.0 && lookup(archs, pods[i].1) == Some(
                x.1,
            ),
    decreases pods.len(),
{
    if pods.len() > 0 {
        let d = pods.drop_last();
        let a = pod_archs(d, archs);
        let b = pod_archs(pods, archs);
        law_pods_have_their_images_architecture(d, archs, x);
        assert(pods[pods.len() - 1] == pods.last());
        if b.contains(x) {
            let k = choose|k: int| 0 <= k < b.len() && b[k] == x;
            if k < a.len() {
                assert(a[k] == x);
                let i = choose|i: int|
                    0 <= i < d.len() && (#[trigger] d[i]).0 == x.0 && lookup(archs, d[i].1) == Some(
                        x.1,
                    );
                assert(pods[i] == d[i]);
            } else {
                assert(pods[pods.len() - 1].0 == x.0);
            }
        }
        if exists|i: int|
            0 <= i < pods.len() && (#[trigger] pods[i]).0 == x.0 && lookup(archs, pods[i].1) == Some(
                x.1,
            ) {
            let i = choose|i: int|
                0 <= i < pods.len() && (#[trigger] pods[i]).0 == x.0 && lookup(archs, pods[i].1)
                    == Some(x.1);
            if i < d.len() {
                assert(d[i] == pods[i]);
                let k = choose|k: int| 0 <= k < a.len() && a[k] == x;
                assert(b[k] == x);
            } else {
                assert(b[a.len() as int] == x);
            }
        }
    }
}

/// The last container of a pod gives the pod its image; others stay as they are.
pub proof fn law_last_container_gives_the_image(
    v: Seq<(Option<String>, Option<String>)>,
    other: Seq<char>,
)
    requires
        v.len() > 0,
        v.last().1 is Some,
        v.last().1->0@.len() > 0,
        workload_key(bare_name(v.last().0)) is Some,
    ensures
        ({
            let k = workload_key(bare_name(v.last().0))->0;
            &&& lookup(pod_images(v), k) == Some(v.last().1->0@)
            &&& other != k ==> lookup(pod_images(v), other) == lookup(
                pod_images(v.drop_last()),
                other,
            )
        }),
{
    let k = workload_key(bare_name(v.last().0))->0;
    crate::textmap::law_put_then_lookup(pod_images(v.drop_last()), k, v.last().1->0@, other);
}

/// The texts that are there are listed, and no others.
pub proof fn law_present_texts_are_listed(v: Seq<Option<String>>, x: Seq<char>)
    ensures
        present(v).contains(x) <==> exists|i: int|
            0 <= i < v.len() && (#[trigger] v[i]) is Some && v[i]->0@ == x,
    decreases v.len(),
{
    if v.len() > 0 {
        let d = v.drop_last();
        let r = present(d);
        law_present_texts_are_listed(d, x);
        assert(v[v.len() - 1] == v.last());
        if r.contains(x) {
            let i = choose|i: int| 0 <= i < d.len() && (#[trigger] d[i]) is Some && d[i]->0@ == x;
            assert(v[i] == d[i]);
        }
        if exists|i: int| 0 <= i < v.len() && (#[trigger] v[i]) is Some && v[i]->0@ == x {
            let i = choose|i: int| 0 <= i < v.len() && (#[trigger] v[i]) is Some && v[i]->0@ == x;
            if i < d.len() {
                assert(d[i] == v[i]);
            }
        }
        if let Some(s) = v.last() {
            let t = r.push(s@);
            assert(t[r.len() as int] == s@);
            if r.contains(x) {
                let j = choose|j: int| 0 <= j < r.len() && r[j] == x;
                assert(t[j] == x);
            }
            if t.contains(x) && x != s@ {
                let j = choose|j: int| 0 <= j < t.len() && t[j] == x;
                assert(r[j] == x);
            }
        }
    }
}

/// The containers of pods are listed under the third part of their names, with their volumes.
pub proof fn law_containers_of_pods_are_listed(v: Seq<ListedContainer>, x: MountInfoView)
    ensures
        pod_containers(v).contains(x) <==> exists|i: int|
            0 <= i < v.len() && pieces(bare_name((#[trigger] v[i]).name), '_').len() >= 4 && x == (
                pieces(bare_name(v[i].name), '_')[2],
                present(v[i].mounts@),
            ),
    decreases v.len(),
{
    if v.len() > 0 {
        let d = v.drop_last();
        let r = pod_containers(d);
        let y = (pieces(bare_name(v.last().name), '_')[2], present(v.last().mounts@));
        let t = r.push(y);
        law_containers_of_pods_are_listed(d, x);
        assert(t[r.len() as int] == y);
        assert(v[v.len() - 1] == v.last());
        if r.contains(x) {
            let i = choose|i: int|
                0 <= i < d.len() && pieces(bare_name((#[trigger] d[i]).name), '_').len() >= 4 && x == (
                    pieces(bare_name(d[i].name), '_')[2],
                    present(d[i].mounts@),
                );
            assert(v[i] == d[i]);
            let j = choose|j: int| 0 <= j < r.len() && r[j] == x;
            assert(t[j] == x);
        }
        if t.contains(x) && x != y {
            let j = choose|j: int| 0 <= j < t.len() && t[j] == x;
            assert(r[j] == x);
        }
        if exists|i: int|
            0 <= i < v.len() && pieces(bare_name((#[trigger] v[i]).name), '_').len() >= 4 && x == (
                pieces(bare_name(v[i].name), '_')[2],
                present(v[i].mounts@),
            ) {
            let i = choose|i: int|
                0 <= i < v.len() && pieces(bare_name((#[trigger] v[i]).name), '_').len() >= 4 && x == (
                    pieces(bare_name(v[i].name), '_')[2],
                    present(v[i].mounts@),
                );
            if i < d.len() {
                assert(d[i] == v[i]);
            }
        }
    }
}

/// Each architecture is called by its name.
pub proof fn law_architectures_have_their_names(a: Arch)
    ensures
        a == Arch::X86_64 ==> arch_name(a) == "x86_64"@,
        a == Arch::Aarch64 ==> arch_name(a) == "aarch64"@,
{
}

} // verus!
