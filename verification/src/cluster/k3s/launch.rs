//! The container in which the cluster runs.

use vstd::prelude::*;
use crate::cluster::config::{parse_port_mappings, ClusterConfig};
use crate::cluster::docker::container::ContainerRunConfig;
use crate::cluster::docker::queries::pair_views;
use crate::cluster::k3s::lifecycle::LifecycleSettings;
use crate::text::{begins, has_sub, no_texts, occurs_at, opt_view, opt_views, push_text, views};
use crate::textmap::TextMap;

verus! {

/// The volume for the data of the cluster.
pub const RANCHER_VOLUME_NAME: &'static str = "k3s-rancher-data";

/// Where the container has the data of the cluster.
pub const RANCHER_DATA_PATH: &'static str = "/var/lib/rancher/k3s";

/// The volume for persistent volumes.
pub const LOCAL_PV_VOLUME_NAME: &'static str = "k3s-local-pv-data";

/// Where persistent volumes are, where Docker keeps its data in the usual place.
pub const LOCAL_PV_STORAGE_PATH: &'static str = "/var/lib/docker/volumes/k3s-local-pv-data/_data";

/// Where Docker listens.
pub const DOCKER_SOCKET: &'static str = "/var/run/docker.sock";

/// What the container does before the server runs, and the start of the server.
pub const SERVER_HEAD: &'static str =
    "nsenter --mount=/proc/1/ns/mnt modprobe br_netfilter 2>/dev/null || true && sysctl -w net.bridge.bridge-nf-call-iptables=1 2>/dev/null || true && mkdir -p /run/k3s /sys/fs/cgroup/kubepods && /bin/k3s server --docker";

/// The way to Docker's own socket on macOS.
pub const MACOS_ENDPOINT: &'static str =
    " --container-runtime-endpoint /proc/1/root/run/docker.sock";

/// What the server does without.
pub const SERVER_WITHOUT: &'static str =
    " --disable=metrics-server --disable=servicelb --disable-cloud-controller --disable-network-policy";

/// The end of the server's command line.
pub const SERVER_TAIL: &'static str =
    " --kubelet-arg=cgroup-driver=cgroupfs --kube-apiserver-arg=profiling=false --kube-apiserver-arg=enable-admission-plugins=NodeRestriction --kube-controller-manager-arg=concurrent-deployment-syncs=1";

/// What a new container of a snapshot does first.
pub const RESTORE_HEAD: &'static str =
    "set -e && if [ -d /snapshot-data ]; then echo 'Restoring cluster state from snapshot...' && mkdir -p ";

/// What is known of Docker and of this machine when the cluster is created.
#[derive(Debug, Clone)]
pub struct HostFacts {
    /// Where Docker keeps its data.
    pub docker_root: String,
    /// Where Docker's socket is, to mount it.
    pub socket_source: String,
    /// Docker's address where it is reached by TCP.
    pub tcp_url: Option<String>,
    pub iptables_mode: String,
    pub macos: bool,
    /// The port on which Docker is made reachable on macOS.
    pub relay_port: u16,
}

// ---------------------------------------------------------------------------
// Models
// ---------------------------------------------------------------------------

/// Source, destination and options of a volume.
pub type VolumeView = (Seq<char>, Seq<char>, Seq<char>);

/// Volumes, as values.
pub open spec fn volume_views(v: Seq<(String, String, String)>) -> Seq<VolumeView> {
    Seq::new(v.len(), |i: int| (v[i].0@, v[i].1@, v[i].2@))
}

/// Where persistent volumes are, given where Docker keeps its data.
pub open spec fn pv_path(docker_root: Seq<char>) -> Seq<char> {
    docker_root + "/volumes/k3s-local-pv-data/_data"@
}

/// Where the kubelet keeps its data, given where Docker keeps its own.
pub open spec fn kubelet_path(docker_root: Seq<char>) -> Seq<char> {
    docker_root + "/kubelet"@
}

/// The command line of the server in a new cluster.
pub open spec fn create_script(docker_root: Seq<char>, macos: bool) -> Seq<char> {
    let head = if macos {
        SERVER_HEAD@ + MACOS_ENDPOINT@
    } else {
        SERVER_HEAD@
    };
    head + SERVER_WITHOUT@ + " --flannel-backend=host-gw --default-local-storage-path "@ + pv_path(
        docker_root,
    ) + " --service-node-port-range 80-32767 --kubelet-arg=root-dir="@ + kubelet_path(docker_root)
        + SERVER_TAIL@
}

/// The command line of the server in a cluster from a snapshot.
pub open spec fn restore_script() -> Seq<char> {
    RESTORE_HEAD@ + RANCHER_DATA_PATH@ + " "@ + LOCAL_PV_STORAGE_PATH@
        + " && cp -a /snapshot-data/rancher/. "@ + RANCHER_DATA_PATH@
        + "/ 2>/dev/null || true && cp -a /snapshot-data/pv/. "@ + LOCAL_PV_STORAGE_PATH@
        + "/ 2>/dev/null || true && echo 'Cluster state restored'; fi && "@ + SERVER_HEAD@
        + SERVER_WITHOUT@ + " --default-local-storage-path "@ + LOCAL_PV_STORAGE_PATH@
        + " --service-node-port-range 80-32767 --kubelet-arg=root-dir=/var/lib/docker/kubelet"@
        + SERVER_TAIL@
}

/// A shell that runs a script.
pub open spec fn in_shell(script: Seq<char>) -> Seq<Seq<char>> {
    Seq::<Seq<char>>::empty().push("/bin/sh"@).push("-c"@).push(script)
}

/// The volumes of a new cluster. Without a TCP address, Docker's socket comes first.
pub open spec fn create_volumes(f: HostFacts) -> Seq<VolumeView> {
    let first = match f.tcp_url {
        Some(_) => Seq::<VolumeView>::empty(),
        None => Seq::<VolumeView>::empty().push(
            (f.socket_source@, DOCKER_SOCKET@, Seq::empty()),
        ),
    };
    first.push((f.docker_root@, f.docker_root@, "bind-propagation=rshared"@)).push(
        (RANCHER_VOLUME_NAME@, RANCHER_DATA_PATH@, "volume"@),
    ).push((LOCAL_PV_VOLUME_NAME@, pv_path(f.docker_root@), "volume"@))
}

/// The environment of a new cluster.
pub open spec fn create_env(f: HostFacts) -> Seq<(Seq<char>, Seq<char>)> {
    let first = Seq::<(Seq<char>, Seq<char>)>::empty().push(
        ("IPTABLES_MODE"@, f.iptables_mode@),
    );
    match f.tcp_url {
        Some(u) => first.push(("DOCKER_HOST"@, u@)),
        None => first,
    }
}

/// The ports that a new cluster publishes.
pub open spec fn create_ports(c: ClusterConfig, f: HostFacts) -> Seq<(u16, u16)> {
    if f.macos {
        c.ports().push((f.relay_port, f.relay_port))
    } else {
        c.ports()
    }
}

/// The volumes of a cluster from a snapshot.
pub open spec fn restore_volumes(socket: Seq<char>) -> Seq<VolumeView> {
    Seq::<VolumeView>::empty().push((socket, DOCKER_SOCKET@, Seq::empty())).push(
        ("/var/lib/docker"@, "/var/lib/docker"@, "bind-propagation=rshared"@),
    ).push((RANCHER_VOLUME_NAME@, RANCHER_DATA_PATH@, "volume"@)).push(
        (LOCAL_PV_VOLUME_NAME@, LOCAL_PV_STORAGE_PATH@, "volume"@),
    )
}

/// What the containers of all clusters have in common.
pub open spec fn runs_cluster(r: ContainerRunConfig, c: ClusterConfig) -> bool {
    &&& r.name@ == c.container_name@
    &&& opt_view(r.hostname) == Some(c.container_name@)
    &&& r.detach && r.privileged
    &&& opt_view(r.network) == Some(c.network_name@)
    &&& r.cgroupns_host && r.pid_host
    &&& opt_view(r.entrypoint) == Some(Seq::<char>::empty())
    &&& r.labels@.len() == 0
    &&& !r.auto_remove
}

/// The container of a new cluster.
pub open spec fn creates(r: ContainerRunConfig, c: ClusterConfig, f: HostFacts) -> bool {
    &&& runs_cluster(r, c)
    &&& r.image@ == "rancher/k3s:"@ + c.k3s_version@
    &&& r.ports@ == create_ports(c, f)
    &&& volume_views(r.volumes@) == create_volumes(f)
    &&& pair_views(r.env@) == create_env(f)
    &&& opt_views(r.command) == Some(in_shell(create_script(f.docker_root@, f.macos)))
    &&& views(r.security_opt@) == Seq::<Seq<char>>::empty().push("apparmor=unconfined"@)
}

/// The container of a cluster from a snapshot.
pub open spec fn restores(
    r: ContainerRunConfig,
    c: ClusterConfig,
    image: Seq<char>,
    socket: Seq<char>,
) -> bool {
    &&& runs_cluster(r, c)
    &&& r.image@ == image
    &&& r.ports@ == c.ports()
    &&& volume_views(r.volumes@) == restore_volumes(socket)
    &&& r.env@.len() == 0
    &&& opt_views(r.command) == Some(in_shell(restore_script()))
    &&& r.security_opt@.len() == 0
}

// ---------------------------------------------------------------------------
// Functions
// ---------------------------------------------------------------------------

/// Where persistent volumes are, given where Docker keeps its data.
pub fn local_pv_storage_path(docker_root: &str) -> (r: String)
    ensures
        r@ == pv_path(docker_root@),
{
    let mut s = docker_root.to_owned();
    s.append("/volumes/k3s-local-pv-data/_data");
    s
}

/// Where the kubelet keeps its data, given where Docker keeps its own.
pub fn kubelet_root_dir(docker_root: &str) -> (r: String)
    ensures
        r@ == kubelet_path(docker_root@),
{
    let mut s = docker_root.to_owned();
    s.append("/kubelet");
    s
}

fn add_volume(v: &mut Vec<(String, String, String)>, a: &str, b: &str, c: &str)
    ensures
        volume_views(final(v)@) == volume_views(old(v)@).push((a@, b@, c@)),
{
    let ghost before = volume_views(v@);
    v.push((a.to_owned(), b.to_owned(), c.to_owned()));
    assert(volume_views(v@) =~= before.push((a@, b@, c@)));
}

fn add_setting(v: &mut Vec<(String, String)>, a: &str, b: &str)
    ensures
        pair_views(final(v)@) == pair_views(old(v)@).push((a@, b@)),
{
    let ghost before = pair_views(v@);
    v.push((a.to_owned(), b.to_owned()));
    assert(pair_views(v@) =~= before.push((a@, b@)));
}

fn shell(script: &str) -> (r: Vec<String>)
    ensures
        views(r@) == in_shell(script@),
{
    let mut v = no_texts();
    push_text(&mut v, "/bin/sh");
    push_text(&mut v, "-c");
    push_text(&mut v, script);
    v
}

fn script_for_create(docker_root: &str, macos: bool) -> (r: String)
    ensures
        r@ == create_script(docker_root@, macos),
{
    let mut s = SERVER_HEAD.to_owned();
    if macos {
        s.append(MACOS_ENDPOINT);
    }
    s.append(SERVER_WITHOUT);
    s.append(" --flannel-backend=host-gw --default-local-storage-path ");
    s.append(local_pv_storage_path(docker_root).as_str());
    s.append(" --service-node-port-range 80-32767 --kubelet-arg=root-dir=");
    s.append(kubelet_root_dir(docker_root).as_str());
    s.append(SERVER_TAIL);
    s
}

fn script_for_restore() -> (r: String)
    ensures
        r@ == restore_script(),
{
    let mut s = RESTORE_HEAD.to_owned();
    s.append(RANCHER_DATA_PATH);
    s.append(" ");
    s.append(LOCAL_PV_STORAGE_PATH);
    s.append(" && cp -a /snapshot-data/rancher/. ");
    s.append(RANCHER_DATA_PATH);
    s.append("/ 2>/dev/null || true && cp -a /snapshot-data/pv/. ");
    s.append(LOCAL_PV_STORAGE_PATH);
    s.append("/ 2>/dev/null || true && echo 'Cluster state restored'; fi && ");
    s.append(SERVER_HEAD);
    s.append(SERVER_WITHOUT);
    s.append(" --default-local-storage-path ");
    s.append(LOCAL_PV_STORAGE_PATH);
    s.append(" --service-node-port-range 80-32767 --kubelet-arg=root-dir=/var/lib/docker/kubelet");
    s.append(SERVER_TAIL);
    s
}

fn no_volumes() -> (r: Vec<(String, String, String)>)
    ensures
        volume_views(r@) == Seq::<VolumeView>::empty(),
{
    let r: Vec<(String, String, String)> = Vec::new();
    assert(volume_views(r@) =~= Seq::<VolumeView>::empty());
    r
}

fn cluster_container(
    c: &ClusterConfig,
    image: String,
    ports: Vec<(u16, u16)>,
    volumes: Vec<(String, String, String)>,
    env: Vec<(String, String)>,
    command: Vec<String>,
    security_opt: Vec<String>,
) -> (r: ContainerRunConfig)
    ensures
        runs_cluster(r, *c),
        r.image == image,
        r.ports == ports,
        r.volumes == volumes,
        r.env == env,
        r.command == Some(command),
        r.security_opt == security_opt,
{
    let entry = String::new();
    assert(entry@ =~= Seq::<char>::empty());
    ContainerRunConfig {
        name: c.container_name.clone(),
        hostname: Some(c.container_name.clone()),
        image,
        detach: true,
        privileged: true,
        ports,
        volumes,
        env,
        network: Some(c.network_name.clone()),
        cgroupns_host: true,
        pid_host: true,
        entrypoint: Some(entry),
        command: Some(command),
        security_opt,
        labels: TextMap::new(),
        auto_remove: false,
    }
}

/// The container of a new cluster.
pub fn container_to_create(c: &ClusterConfig, f: &HostFacts) -> (r: ContainerRunConfig)
    ensures
        creates(r, *c, *f),
{
    let mut ports = parse_port_mappings(&c.port_mappings());
    if f.macos {
        ports.push((f.relay_port, f.relay_port));
    }
    let mut volumes = no_volumes();
    let mut env: Vec<(String, String)> = Vec::new();
    assert(pair_views(env@) =~= Seq::<(Seq<char>, Seq<char>)>::empty());
    add_setting(&mut env, "IPTABLES_MODE", f.iptables_mode.as_str());
    match &f.tcp_url {
        Some(u) => add_setting(&mut env, "DOCKER_HOST", u.as_str()),
        None => {
            let none = String::new();
            assert(none@ =~= Seq::<char>::empty());
            add_volume(&mut volumes, f.socket_source.as_str(), DOCKER_SOCKET, none.as_str());
        },
    }
    add_volume(
        &mut volumes,
        f.docker_root.as_str(),
        f.docker_root.as_str(),
        "bind-propagation=rshared",
    );
    add_volume(&mut volumes, RANCHER_VOLUME_NAME, RANCHER_DATA_PATH, "volume");
    let pv = local_pv_storage_path(f.docker_root.as_str());
    add_volume(&mut volumes, LOCAL_PV_VOLUME_NAME, pv.as_str(), "volume");
    let script = script_for_create(f.docker_root.as_str(), f.macos);
    let mut security = no_texts();
    push_text(&mut security, "apparmor=unconfined");
    cluster_container(c, c.k3s_image(), ports, volumes, env, shell(script.as_str()), security)
}

/// The container of a cluster from a snapshot; `socket` is where Docker's socket is.
pub fn container_to_restore(c: &ClusterConfig, image: &str, socket: &str) -> (r: ContainerRunConfig)
    ensures
        restores(r, *c, image@, socket@),
{
    let ports = parse_port_mappings(&c.port_mappings());
    let mut volumes = no_volumes();
    let none = String::new();
    assert(none@ =~= Seq::<char>::empty());
    add_volume(&mut volumes, socket, DOCKER_SOCKET, none.as_str());
    add_volume(&mut volumes, "/var/lib/docker", "/var/lib/docker", "bind-propagation=rshared");
    add_volume(&mut volumes, RANCHER_VOLUME_NAME, RANCHER_DATA_PATH, "volume");
    add_volume(&mut volumes, LOCAL_PV_VOLUME_NAME, LOCAL_PV_STORAGE_PATH, "volume");
    let script = script_for_restore();
    cluster_container(
        c,
        image.to_owned(),
        ports,
        volumes,
        Vec::new(),
        shell(script.as_str()),
        no_texts(),
    )
}

/// The settings of a cluster on which the steps of its life depend.
pub fn settings_of(c: &ClusterConfig) -> (r: LifecycleSettings)
    ensures
        r.use_snapshot == c.speedup.use_snapshot,
        r.snapshot_auto_cleanup == c.speedup.snapshot_auto_cleanup,
        r.has_hooks == (c.hooks.on_cluster_available@.len() > 0
            || c.hooks.on_services_deployed@.len() > 0),
{
    LifecycleSettings {
        use_snapshot: c.speedup.use_snapshot,
        snapshot_auto_cleanup: c.speedup.snapshot_auto_cleanup,
        has_hooks: c.hooks.has_hooks(),
    }
}

/// A cluster publishes every port that is configured, created or restored.
pub proof fn law_configured_ports_are_published(
    c: ClusterConfig,
    f: HostFacts,
    created: ContainerRunConfig,
    restored: ContainerRunConfig,
    image: Seq<char>,
    socket: Seq<char>,
    i: int,
)
    requires
        creates(created, c, f),
        restores(restored, c, image, socket),
        0 <= i < c.ports().len(),
    ensures
        created.ports@.contains(c.ports()[i]),
        restored.ports@.contains(c.ports()[i]),
{
    assert(created.ports@[i] == c.ports()[i]);
    assert(restored.ports@[i] == c.ports()[i]);
}

/// The ports of a cluster are those of its API, of HTTP and of HTTPS, each under its own number, and
/// the additional ones; on macOS a new cluster publishes the relay as well, and nothing else is
/// published.
pub proof fn law_published_ports_are_configured(c: ClusterConfig, f: HostFacts, p: (u16, u16))
    ensures
        c.ports().contains(p) <==> (p.0 == p.1 && (p.0 == c.api_port || p.0 == c.http_port || p.0
            == c.https_port)) || c.additional_ports@.contains(p),
        create_ports(c, f).contains(p) <==> c.ports().contains(p) || (f.macos && p == (
            f.relay_port,
            f.relay_port,
        )),
{
    let a = c.ports();
    assert(a[0] == (c.api_port, c.api_port));
    assert(a[1] == (c.http_port, c.http_port));
    assert(a[2] == (c.https_port, c.https_port));
    assert forall|i: int| 0 <= i < c.additional_ports@.len() implies a[i + 3]
        == #[trigger] c.additional_ports@[i] by {}
    if a.contains(p) {
        let i = choose|i: int| 0 <= i < a.len() && a[i] == p;
        if i >= 3 {
            assert(c.additional_ports@[i - 3] == p);
        }
    }
    if c.additional_ports@.contains(p) {
        let i = choose|i: int| 0 <= i < c.additional_ports@.len() && c.additional_ports@[i] == p;
        assert(a[i + 3] == p);
    }
    let b = create_ports(c, f);
    if a.contains(p) {
        let i = choose|i: int| 0 <= i < a.len() && a[i] == p;
        assert(b[i] == p);
    }
    if f.macos {
        assert(b[a.len() as int] == (f.relay_port, f.relay_port));
        if b.contains(p) {
            let i = choose|i: int| 0 <= i < b.len() && b[i] == p;
            if i < a.len() {
                assert(a[i] == p);
            }
        }
    }
}

/// The data of a cluster outlives its container: created or restored, a cluster has its data and its
/// persistent volumes on the same named volumes. A new one reaches Docker by its socket, or else by
/// the address that its environment gives.
pub proof fn law_cluster_data_is_on_volumes(f: HostFacts, socket: Seq<char>)
    ensures
        create_volumes(f).contains((RANCHER_VOLUME_NAME@, RANCHER_DATA_PATH@, "volume"@)),
        restore_volumes(socket).contains((RANCHER_VOLUME_NAME@, RANCHER_DATA_PATH@, "volume"@)),
        create_volumes(f).contains((LOCAL_PV_VOLUME_NAME@, pv_path(f.docker_root@), "volume"@)),
        restore_volumes(socket).contains((LOCAL_PV_VOLUME_NAME@, LOCAL_PV_STORAGE_PATH@, "volume"@)),
        create_volumes(f).contains((f.docker_root@, f.docker_root@, "bind-propagation=rshared"@)),
        f.tcp_url is None ==> create_volumes(f).contains(
            (f.socket_source@, DOCKER_SOCKET@, Seq::<char>::empty()),
        ),
        f.tcp_url matches Some(u) ==> create_env(f).contains(("DOCKER_HOST"@, u@)),
        restore_volumes(socket).contains((socket, DOCKER_SOCKET@, Seq::<char>::empty())),
        create_env(f).contains(("IPTABLES_MODE"@, f.iptables_mode@)),
{
    let v = create_volumes(f);
    let r = restore_volumes(socket);
    let e = create_env(f);
    let n = v.len() as int;
    assert(v[n - 2] == (RANCHER_VOLUME_NAME@, RANCHER_DATA_PATH@, "volume"@));
    assert(v[n - 1] == (LOCAL_PV_VOLUME_NAME@, pv_path(f.docker_root@), "volume"@));
    assert(v[n - 3] == (f.docker_root@, f.docker_root@, "bind-propagation=rshared"@));
    assert(r[0] == (socket, DOCKER_SOCKET@, Seq::<char>::empty()));
    assert(r[2] == (RANCHER_VOLUME_NAME@, RANCHER_DATA_PATH@, "volume"@));
    assert(r[3] == (LOCAL_PV_VOLUME_NAME@, LOCAL_PV_STORAGE_PATH@, "volume"@));
    assert(e[0] == ("IPTABLES_MODE"@, f.iptables_mode@));
    if let Some(u) = f.tcp_url {
        assert(e[1] == ("DOCKER_HOST"@, u@));
    } else {
        assert(v[0] == (f.socket_source@, DOCKER_SOCKET@, Seq::<char>::empty()));
    }
}

/// The server of a new cluster keeps persistent volumes where Docker's data is, in the directory that
/// is mounted for them, and so does the kubelet with its own; on macOS it is shown the way to Docker.
pub proof fn law_server_is_told_its_paths(docker_root: Seq<char>, macos: bool)
    ensures
        has_sub(
            create_script(docker_root, macos),
            " --default-local-storage-path "@ + pv_path(docker_root) + " "@,
        ),
        has_sub(
            create_script(docker_root, macos),
            " --kubelet-arg=root-dir="@ + kubelet_path(docker_root) + " "@,
        ),
        macos ==> has_sub(create_script(docker_root, macos), MACOS_ENDPOINT@),
        begins(create_script(docker_root, macos), SERVER_HEAD@),
        begins(pv_path(docker_root), docker_root + "/"@),
        begins(kubelet_path(docker_root), docker_root + "/"@),
{
    let head = if macos {
        SERVER_HEAD@ + MACOS_ENDPOINT@
    } else {
        SERVER_HEAD@
    };
    let a = " --flannel-backend=host-gw --default-local-storage-path "@;
    let b = " --service-node-port-range 80-32767 --kubelet-arg=root-dir="@;
    reveal_strlit(" --flannel-backend=host-gw --default-local-storage-path ");
    reveal_strlit(" --default-local-storage-path ");
    reveal_strlit(" --service-node-port-range 80-32767 --kubelet-arg=root-dir=");
    reveal_strlit(" --kubelet-arg=root-dir=");
    reveal_strlit(" ");
    reveal_strlit("/");
    reveal_strlit("/volumes/k3s-local-pv-data/_data");
    reveal_strlit("/kubelet");
    reveal_strlit(
        " --kubelet-arg=cgroup-driver=cgroupfs --kube-apiserver-arg=profiling=false --kube-apiserver-arg=enable-admission-plugins=NodeRestriction --kube-controller-manager-arg=concurrent-deployment-syncs=1",
    );
    let s = create_script(docker_root, macos);
    let (pv, kubelet) = (pv_path(docker_root), kubelet_path(docker_root));
    let x = " --default-local-storage-path "@;
    let i = head.len() + SERVER_WITHOUT@.len() + a.len() - x.len();
    assert(a.subrange(a.len() - x.len(), a.len() as int) =~= x);
    assert(s.subrange(i, i + (x + pv + " "@).len()) =~= x + pv + " "@);
    assert(occurs_at(s, x + pv + " "@, i));
    let y = " --kubelet-arg=root-dir="@;
    let j = head.len() + SERVER_WITHOUT@.len() + a.len() + pv.len() + b.len() - y.len();
    assert(b.subrange(b.len() - y.len(), b.len() as int) =~= y);
    assert(SERVER_TAIL@[0] == ' ');
    assert(s.subrange(j, j + (y + kubelet + " "@).len()) =~= y + kubelet + " "@);
    assert(occurs_at(s, y + kubelet + " "@, j));
    if macos {
        let k = SERVER_HEAD@.len() as int;
        assert(s.subrange(k, k + MACOS_ENDPOINT@.len()) =~= MACOS_ENDPOINT@);
        assert(occurs_at(s, MACOS_ENDPOINT@, k));
    }
    assert(s.subrange(0, SERVER_HEAD@.len() as int) =~= SERVER_HEAD@);
    assert(pv.subrange(0, (docker_root + "/"@).len() as int) =~= docker_root + "/"@);
    assert(kubelet.subrange(0, (docker_root + "/"@).len() as int) =~= docker_root + "/"@);
}

/// What a snapshot holds goes back to where it came from, before the server runs.
pub proof fn law_restored_data_goes_back()
    ensures
        has_sub(restore_script(), "cp -a /snapshot-data/rancher/. "@ + RANCHER_DATA_PATH@),
        has_sub(restore_script(), "cp -a /snapshot-data/pv/. "@ + LOCAL_PV_STORAGE_PATH@),
        has_sub(restore_script(), SERVER_HEAD@ + SERVER_WITHOUT@),
{
    let a = " && cp -a /snapshot-data/rancher/. "@;
    let b = "/ 2>/dev/null || true && cp -a /snapshot-data/pv/. "@;
    let c = "/ 2>/dev/null || true && echo 'Cluster state restored'; fi && "@;
    reveal_strlit(" && cp -a /snapshot-data/rancher/. ");
    reveal_strlit("cp -a /snapshot-data/rancher/. ");
    reveal_strlit("/ 2>/dev/null || true && cp -a /snapshot-data/pv/. ");
    reveal_strlit("cp -a /snapshot-data/pv/. ");
    let s = restore_script();
    let (r, p) = (RANCHER_DATA_PATH@, LOCAL_PV_STORAGE_PATH@);
    let n = RESTORE_HEAD@.len() + r.len() + " "@.len() + p.len() + a.len();
    let x = "cp -a /snapshot-data/rancher/. "@;
    let i = n - x.len();
    assert(a.subrange(a.len() - x.len(), a.len() as int) =~= x);
    assert(s.subrange(i, i + (x + r).len()) =~= x + r);
    assert(occurs_at(s, x + r, i));
    let y = "cp -a /snapshot-data/pv/. "@;
    let j = n + r.len() + b.len() - y.len();
    assert(b.subrange(b.len() - y.len(), b.len() as int) =~= y);
    assert(s.subrange(j, j + (y + p).len()) =~= y + p);
    assert(occurs_at(s, y + p, j));
    let k = n + r.len() + b.len() + p.len() + c.len();
    let z = SERVER_HEAD@ + SERVER_WITHOUT@;
    assert(s.subrange(k as int, (k + z.len()) as int) =~= z);
    assert(occurs_at(s, z, k as int));
}

/// The container of a cluster bears its name, is in its network, and has the rights that it needs; it
/// outlives its end.
pub proof fn law_clusters_run_as_configured(r: ContainerRunConfig, c: ClusterConfig)
    requires
        runs_cluster(r, c),
    ensures
        r.name@ == c.container_name@,
        r.hostname is Some && r.hostname->0@ == c.container_name@,
        r.network is Some && r.network->0@ == c.network_name@,
        r.privileged && r.detach && r.cgroupns_host && r.pid_host,
        !r.auto_remove,
{
}

} // verus!
