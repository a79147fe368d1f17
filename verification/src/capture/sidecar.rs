//! The container that captures the traffic of another.

use vstd::prelude::*;
use crate::cluster::docker::container::ContainerRunConfig;
use crate::text::{no_texts, opt_view, opt_views, push_text, trim, trimmed, views};
use crate::textmap::TextMap;

verus! {

/// The label of every capturing container.
pub const CAPTURE_LABEL: &'static str = "k3dev.capture";

/// The label that says what is captured.
pub const TARGET_LABEL: &'static str = "k3dev.target";

/// The command line of tcpdump without a filter: packets are written whole and at once, to its
/// standard output.
pub open spec fn plain_command(iface: Seq<char>) -> Seq<Seq<char>> {
    Seq::<Seq<char>>::empty().push("tcpdump"@).push("-i"@).push(iface).push("-U"@).push("-s"@).push(
        "0"@,
    ).push("-w"@).push("-"@)
}

/// The command line of tcpdump. A filter of white space is none.
pub open spec fn tcpdump_command(iface: Seq<char>, filter: Option<Seq<char>>) -> Seq<Seq<char>> {
    match filter {
        Some(f) => if trimmed(f).len() > 0 {
            plain_command(iface).push(trimmed(f))
        } else {
            plain_command(iface)
        },
        None => plain_command(iface),
    }
}

/// The text of an optional text.
pub open spec fn opt_str(o: Option<&str>) -> Option<Seq<char>> {
    match o {
        Some(s) => Some(s@),
        None => None,
    }
}

/// The command line of tcpdump.
pub fn build_tcpdump_cmd(iface: &str, filter: Option<&str>) -> (r: Vec<String>)
    ensures
        views(r@) == tcpdump_command(iface@, opt_str(filter)),
{
    let mut cmd = no_texts();
    push_text(&mut cmd, "tcpdump");
    push_text(&mut cmd, "-i");
    push_text(&mut cmd, iface);
    push_text(&mut cmd, "-U");
    push_text(&mut cmd, "-s");
    push_text(&mut cmd, "0");
    push_text(&mut cmd, "-w");
    push_text(&mut cmd, "-");
    if let Some(f) = filter {
        let t = trim(f);
        if !t.as_str().is_empty() {
            push_text(&mut cmd, t.as_str());
        }
    }
    cmd
}

/// Labels, as values.
pub open spec fn label_views(m: TextMap<String>) -> Seq<(Seq<char>, Seq<char>)> {
    Seq::new(m@.len(), |i: int| (m@[i].0, m@[i].1@))
}

/// Whether `r` is the container that captures: it shares the target's network and is removed once
/// it ends.
pub open spec fn captures(
    r: ContainerRunConfig,
    name: Seq<char>,
    target: Seq<char>,
    image: Seq<char>,
    command: Seq<Seq<char>>,
    description: Seq<char>,
) -> bool {
    &&& r.name@ == name
    &&& r.hostname is None
    &&& r.image@ == image
    &&& r.detach && r.privileged
    &&& r.ports@.len() == 0 && r.volumes@.len() == 0 && r.env@.len() == 0
    &&& opt_view(r.network) == Some("container:"@ + target)
    &&& !r.cgroupns_host && !r.pid_host
    &&& opt_view(r.entrypoint) == Some(Seq::<char>::empty())
    &&& opt_views(r.command) == Some(command)
    &&& r.security_opt@.len() == 0
    &&& label_views(r.labels) == Seq::<(Seq<char>, Seq<char>)>::empty().push(
        (CAPTURE_LABEL@, "true"@),
    ).push((TARGET_LABEL@, description))
    &&& r.auto_remove
}

/// The container that captures the traffic of the container `target_container_id`.
pub fn build_capture_config(
    sidecar_name: &str,
    target_container_id: &str,
    image: &str,
    iface: &str,
    filter: Option<&str>,
    description: &str,
) -> (r: ContainerRunConfig)
    ensures
        captures(
            r,
            sidecar_name@,
            target_container_id@,
            image@,
            tcpdump_command(iface@, opt_str(filter)),
            description@,
        ),
{
    let mut entries: Vec<(String, String)> = Vec::new();
    entries.push((CAPTURE_LABEL.to_owned(), "true".to_owned()));
    entries.push((TARGET_LABEL.to_owned(), description.to_owned()));
    let labels = TextMap { entries };
    assert(label_views(labels) =~= Seq::<(Seq<char>, Seq<char>)>::empty().push(
        (CAPTURE_LABEL@, "true"@),
    ).push((TARGET_LABEL@, description@)));
    let mut network = "container:".to_owned();
    network.append(target_container_id);
    let entry = String::new();
    assert(entry@ =~= Seq::<char>::empty());
    ContainerRunConfig {
        name: sidecar_name.to_owned(),
        hostname: None,
        image: image.to_owned(),
        detach: true,
        privileged: true,
        ports: Vec::new(),
        volumes: Vec::new(),
        env: Vec::new(),
        network: Some(network),
        cgroupns_host: false,
        pid_host: false,
        entrypoint: Some(entry),
        command: Some(build_tcpdump_cmd(iface, filter)),
        security_opt: Vec::new(),
        labels,
        auto_remove: true,
    }
}

/// A filter reaches tcpdump without the white space around it, as one argument.
pub proof fn law_filter_is_one_argument(iface: Seq<char>, filter: Seq<char>)
    ensures
        trimmed(filter).len() > 0 ==> tcpdump_command(iface, Some(filter)).len() == 9
            && tcpdump_command(iface, Some(filter)).last() == trimmed(filter),
        trimmed(filter).len() == 0 ==> tcpdump_command(iface, Some(filter)) == plain_command(iface),
{
}

/// The traffic of the interface is written, whole, to the standard output.
pub proof fn law_whole_packets_go_to_the_output(iface: Seq<char>, filter: Option<Seq<char>>)
    ensures
        tcpdump_command(iface, filter)[0] == "tcpdump"@,
        exists|i: int|
            0 <= i < 7 && (#[trigger] tcpdump_command(iface, filter)[i]) == "-i"@ && tcpdump_command(
                iface,
                filter,
            )[i + 1] == iface,
        exists|i: int|
            0 <= i < 7 && (#[trigger] tcpdump_command(iface, filter)[i]) == "-w"@ && tcpdump_command(
                iface,
                filter,
            )[i + 1] == "-"@,
        exists|i: int|
            0 <= i < 7 && (#[trigger] tcpdump_command(iface, filter)[i]) == "-s"@ && tcpdump_command(
                iface,
                filter,
            )[i + 1] == "0"@,
        tcpdump_command(iface, filter).contains("-U"@),
        filter is None ==> tcpdump_command(iface, filter).len() == 8,
{
    let c = tcpdump_command(iface, filter);
    assert(c[1] == "-i"@ && c[2] == iface);
    assert(c[3] == "-U"@);
    assert(c[4] == "-s"@ && c[5] == "0"@);
    assert(c[6] == "-w"@ && c[7] == "-"@);
}

/// A capturing container is in the network of its target and of no other, runs the command it was
/// given, says what it captures, and is removed once it ends.
pub proof fn law_sidecars_share_the_network(
    r: ContainerRunConfig,
    name: Seq<char>,
    target: Seq<char>,
    image: Seq<char>,
    command: Seq<Seq<char>>,
    description: Seq<char>,
)
    requires
        captures(r, name, target, image, command, description),
    ensures
        r.network is Some && r.network->0@ == "container:"@ + target,
        r.auto_remove,
        r.name@ == name && r.image@ == image,
        opt_views(r.command) == Some(command),
        label_views(r.labels).contains((TARGET_LABEL@, description)),
        label_views(r.labels).contains((CAPTURE_LABEL@, "true"@)),
{
    let l = label_views(r.labels);
    assert(l[0] == (CAPTURE_LABEL@, "true"@));
    assert(l[1] == (TARGET_LABEL@, description));
}

} // verus!
