//! Cluster settings and what is derived from them.

use vstd::prelude::*;
use crate::number::{decimal, number_upto, parse_upto, u64_text};
use crate::text::{lemma_pieces_head, lemma_pieces_single, pieces, split, views};

verus! {

/// Switches of the snapshot mechanism.
#[derive(Clone, Copy, Debug)]
pub struct SpeedupConfig {
    pub use_snapshot: bool,
    pub snapshot_auto_cleanup: bool,
}

/// One command that runs at a point of the cluster's life.
#[derive(Clone, Debug)]
pub struct HookEntry {
    pub name: String,
    pub command: String,
}

/// The commands to run once the cluster answers, and once its services are deployed.
#[derive(Clone, Debug)]
pub struct HooksConfig {
    pub on_cluster_available: Vec<HookEntry>,
    pub on_services_deployed: Vec<HookEntry>,
}

/// The `infrastructure` section of the configuration file, with the names that follow from it.
#[derive(Clone, Debug)]
pub struct InfrastructureConfig {
    pub k3s_version: String,
    pub domain: String,
    pub container_name: String,
    pub network_name: String,
    pub api_port: u16,
    pub http_port: u16,
    pub https_port: u16,
    pub additional_ports: Vec<String>,
    pub speedup: SpeedupConfig,
}

/// Everything that the operations on a cluster need to know of it.
#[derive(Clone, Debug)]
pub struct ClusterConfig {
    pub kubeconfig: Option<String>,
    pub context: Option<String>,
    pub k3s_version: String,
    pub domain: String,
    pub container_name: String,
    pub network_name: String,
    pub api_port: u16,
    pub http_port: u16,
    pub https_port: u16,
    pub additional_ports: Vec<(u16, u16)>,
    pub speedup: SpeedupConfig,
    pub hooks: HooksConfig,
}

// ---------------------------------------------------------------------------
// Models
// ---------------------------------------------------------------------------

/// The pair of ports that a text `host:container` denotes.
pub open spec fn port_pair(s: Seq<char>) -> Option<(u16, u16)> {
    let p = pieces(s, ':');
    if p.len() == 2 {
        match (number_upto(p[0], 65535), number_upto(p[1], 65535)) {
            (Some(h), Some(c)) => Some((h as u16, c as u16)),
            _ => None,
        }
    } else {
        None
    }
}

/// The pairs that `items` denote, in order; items that denote none are left out.
pub open spec fn port_pairs(items: Seq<Seq<char>>) -> Seq<(u16, u16)>
    decreases items.len(),
{
    if items.len() == 0 {
        Seq::empty()
    } else {
        match port_pair(items.last()) {
            Some(p) => port_pairs(items.drop_last()).push(p),
            None => port_pairs(items.drop_last()),
        }
    }
}

/// A pair of ports in the notation `host:container`.
pub open spec fn port_text(p: (u16, u16)) -> Seq<char> {
    decimal(p.0 as nat) + ":"@ + decimal(p.1 as nat)
}

impl ClusterConfig {
    /// All ports to publish: API, HTTP and HTTPS, then the additional ones.
    pub open spec fn ports(&self) -> Seq<(u16, u16)> {
        seq![
            (self.api_port, self.api_port),
            (self.http_port, self.http_port),
            (self.https_port, self.https_port),
        ] + self.additional_ports@
    }
}

/// A pair of ports is read back from its notation.
pub proof fn law_port_text_reads_back(p: (u16, u16))
    ensures
        port_pair(port_text(p)) == Some(p),
{
    reveal_strlit(":");
    let h = decimal(p.0 as nat);
    let c = decimal(p.1 as nat);
    crate::number::lemma_decimal(p.0 as nat);
    crate::number::lemma_decimal(p.1 as nat);
    assert(!h.contains(':')) by {
        if h.contains(':') {
            let i = choose|i: int| 0 <= i < h.len() && h[i] == ':';
            assert(crate::number::digit(h[i]));
        }
    }
    assert(!c.contains(':')) by {
        if c.contains(':') {
            let i = choose|i: int| 0 <= i < c.len() && c[i] == ':';
            assert(crate::number::digit(c[i]));
        }
    }
    assert(port_text(p) =~= h.push(':') + c);
    crate::text::lemma_pieces_head(h, ':', c);
    crate::text::lemma_pieces_single(c, ':');
    assert(pieces(port_text(p), ':') =~= seq![h, c]);
    crate::number::law_decimal_reads_back(p.0 as nat, 65535);
    crate::number::law_decimal_reads_back(p.1 as nat, 65535);
}

/// Reading the notations of a list of pairs gives the list back.
pub proof fn law_port_texts_read_back(items: Seq<Seq<char>>, ports: Seq<(u16, u16)>)
    requires
        items.len() == ports.len(),
        forall|i: int| 0 <= i < items.len() ==> #[trigger] items[i] == port_text(ports[i]),
    ensures
        port_pairs(items) == ports,
    decreases items.len(),
{
    if items.len() > 0 {
        law_port_texts_read_back(items.drop_last(), ports.drop_last());
        law_port_text_reads_back(ports.last());
        assert(items.last() == port_text(ports[items.len() - 1]));
        assert(port_pairs(items) =~= ports);
    } else {
        assert(port_pairs(items) =~= ports);
    }
}

// ---------------------------------------------------------------------------
// Functions
// ---------------------------------------------------------------------------

/// Reads additional ports from the format `host:container`.
pub fn parse_port_mapping(s: &str) -> (r: Option<(u16, u16)>)
    ensures
        r == port_pair(s@),
{
    let parts = split(s, ':');
    assert(views(parts@).len() == parts@.len());
    if parts.len() == 2 {
        assert(views(parts@)[0] == parts@[0]@);
        assert(views(parts@)[1] == parts@[1]@);
        match (parse_upto(parts[0].as_str(), 65535), parse_upto(parts[1].as_str(), 65535)) {
            (Some(h), Some(c)) => Some((h as u16, c as u16)),
            _ => None,
        }
    } else {
        None
    }
}

/// The pairs that the items denote; items that denote none are left out.
pub fn parse_port_mappings(items: &Vec<String>) -> (r: Vec<(u16, u16)>)
    ensures
        r@ == port_pairs(views(items@)),
{
    let mut out: Vec<(u16, u16)> = Vec::new();
    let mut i: usize = 0;
    while i < items.len()
        invariant
            i <= items@.len(),
            out@ == port_pairs(views(items@).take(i as int)),
        decreases items@.len() - i,
    {
        assert(views(items@).take(i + 1).drop_last() =~= views(items@).take(i as int));
        assert(views(items@).take(i + 1).last() == items@[i as int]@);
        if let Some(p) = parse_port_mapping(items[i].as_str()) {
            out.push(p);
        }
        i = i + 1;
    }
    assert(views(items@).take(i as int) =~= views(items@));
    out
}

/// A pair of ports in the notation `host:container`.
pub fn port_mapping_text(host: u16, container: u16) -> (r: String)
    ensures
        r@ == port_text((host, container)),
{
    let mut s = u64_text(host as u64);
    s.append(":");
    s.append(u64_text(container as u64).as_str());
    s
}

impl HooksConfig {
    /// No hooks at all.
    pub fn none() -> (r: Self)
        ensures
            r.on_cluster_available@.len() == 0,
            r.on_services_deployed@.len() == 0,
    {
        HooksConfig { on_cluster_available: Vec::new(), on_services_deployed: Vec::new() }
    }

    /// Whether there are hooks.
    pub fn has_hooks(&self) -> (r: bool)
        ensures
            r == (self.on_cluster_available@.len() > 0 || self.on_services_deployed@.len() > 0),
    {
        self.on_cluster_available.len() > 0 || self.on_services_deployed.len() > 0
    }
}

impl ClusterConfig {
    /// The settings that an infrastructure section stands for. Additional ports that do not
    /// have the form `host:container` are dropped.
    pub fn from(infra: InfrastructureConfig) -> (r: Self)
        ensures
            r.kubeconfig is None,
            r.context is None,
            r.k3s_version == infra.k3s_version,
            r.domain == infra.domain,
            r.container_name == infra.container_name,
            r.network_name == infra.network_name,
            r.api_port == infra.api_port,
            r.http_port == infra.http_port,
            r.https_port == infra.https_port,
            r.additional_ports@ == port_pairs(views(infra.additional_ports@)),
            r.speedup == infra.speedup,
            r.hooks.on_cluster_available@.len() == 0,
            r.hooks.on_services_deployed@.len() == 0,
    {
        let additional_ports = parse_port_mappings(&infra.additional_ports);
        ClusterConfig {
            kubeconfig: None,
            context: None,
            k3s_version: infra.k3s_version,
            domain: infra.domain,
            container_name: infra.container_name,
            network_name: infra.network_name,
            api_port: infra.api_port,
            http_port: infra.http_port,
            https_port: infra.https_port,
            additional_ports,
            speedup: infra.speedup,
            hooks: HooksConfig::none(),
        }
    }

    /// The settings used without a configuration file: those of the default infrastructure
    /// section `infra`, with the debugger ports 2345 and 8309 published.
    pub fn default_with(infra: InfrastructureConfig) -> (r: Self)
        ensures
            r.kubeconfig is None,
            r.context is None,
            r.k3s_version == infra.k3s_version,
            r.domain == infra.domain,
            r.container_name == infra.container_name,
            r.network_name == infra.network_name,
            r.api_port == infra.api_port,
            r.http_port == infra.http_port,
            r.https_port == infra.https_port,
            r.additional_ports@ == seq![(2345u16, 2345u16), (8309u16, 8309u16)],
            r.speedup == infra.speedup,
            r.hooks.on_cluster_available@.len() == 0,
            r.hooks.on_services_deployed@.len() == 0,
    {
        let mut ports: Vec<(u16, u16)> = Vec::new();
        ports.push((2345, 2345));
        ports.push((8309, 8309));
        let base = ClusterConfig::from(infra);
        let r = ClusterConfig { additional_ports: ports, ..base };
        assert(r.additional_ports@ =~= seq![(2345u16, 2345u16), (8309u16, 8309u16)]);
        r
    }

    /// The name of the K3s image.
    pub fn k3s_image(&self) -> (r: String)
        ensures
            r@ == "rancher/k3s:"@ + self.k3s_version@,
    {
        let mut s = "rancher/k3s:".to_owned();
        s.append(self.k3s_version.as_str());
        s
    }

    /// All port mappings in the notation of Docker.
    pub fn port_mappings(&self) -> (r: Vec<String>)
        ensures
            r@.len() == self.ports().len(),
            forall|i: int| 0 <= i < r@.len() ==> #[trigger] views(r@)[i] == port_text(self.ports()[i]),
            port_pairs(views(r@)) == self.ports(),
    {
        let mut out: Vec<String> = Vec::new();
        out.push(port_mapping_text(self.api_port, self.api_port));
        out.push(port_mapping_text(self.http_port, self.http_port));
        out.push(port_mapping_text(self.https_port, self.https_port));
        let mut i: usize = 0;
        while i < self.additional_ports.len()
            invariant
                i <= self.additional_ports@.len(),
                out@.len() == 3 + i,
                forall|j: int|
                    0 <= j < out@.len() ==> #[trigger] out@[j]@ == port_text(self.ports()[j]),
            decreases self.additional_ports@.len() - i,
        {
            let (host, container) = self.additional_ports[i];
            out.push(port_mapping_text(host, container));
            i = i + 1;
        }
        proof {
            law_port_texts_read_back(views(out@), self.ports());
        }
        out
    }

    /// The host name of the Traefik dashboard.
    pub fn traefik_dashboard_domain(&self) -> (r: String)
        ensures
            r@ == "traefik."@ + self.domain@,
    {
        let mut s = "traefik.".to_owned();
        s.append(self.domain.as_str());
        s
    }

    /// The wildcard name for certificates.
    pub fn wildcard_domain(&self) -> (r: String)
        ensures
            r@ == "*."@ + self.domain@,
    {
        let mut s = "*.".to_owned();
        s.append(self.domain.as_str());
        s
    }

    /// The same settings with other hooks.
    pub fn with_hooks(self, hooks: HooksConfig) -> (r: Self)
        ensures
            r == (ClusterConfig { hooks, ..self }),
    {
        ClusterConfig { hooks, ..self }
    }

    /// The same settings with another kubeconfig and context.
    pub fn with_k8s_config(self, kubeconfig: Option<String>, context: Option<String>) -> (r: Self)
        ensures
            r == (ClusterConfig { kubeconfig, context, ..self }),
    {
        ClusterConfig { kubeconfig, context, ..self }
    }
}

// ---------------------------------------------------------------------------
// Laws
// ---------------------------------------------------------------------------

/// The ports that are read are those of the texts that denote some.
pub proof fn law_ports_are_those_of_the_texts(items: Seq<Seq<char>>, p: (u16, u16))
    ensures
        port_pairs(items).contains(p) <==> exists|i: int|
            0 <= i < items.len() && port_pair(#[trigger] items[i]) == Some(p),
    decreases items.len(),
{
    if items.len() > 0 {
        let d = items.drop_last();
        let r = port_pairs(d);
        law_ports_are_those_of_the_texts(d, p);
        assert(items[items.len() - 1] == items.last());
        if r.contains(p) {
            let i = choose|i: int| 0 <= i < d.len() && port_pair(#[trigger] d[i]) == Some(p);
            assert(items[i] == d[i]);
        }
        if exists|i: int| 0 <= i < items.len() && port_pair(#[trigger] items[i]) == Some(p) {
            let i = choose|i: int|
                0 <= i < items.len() && port_pair(#[trigger] items[i]) == Some(p);
            if i < d.len() {
                assert(d[i] == items[i]);
            }
        }
        if let Some(y) = port_pair(items.last()) {
            let t = r.push(y);
            assert(t[r.len() as int] == y);
            if r.contains(p) {
                let j = choose|j: int| 0 <= j < r.len() && r[j] == p;
                assert(t[j] == p);
            }
            if t.contains(p) && p != y {
                let j = choose|j: int| 0 <= j < t.len() && t[j] == p;
                assert(r[j] == p);
            }
        }
    }
}

/// A text without a colon, or with a number that is no port, denotes no ports.
pub proof fn law_other_texts_denote_no_ports(s: Seq<char>, a: Seq<char>, b: Seq<char>)
    ensures
        !s.contains(':') ==> port_pair(s) is None,
        s == a.push(':') + b && !a.contains(':') && !b.contains(':') ==> (port_pair(s) is Some
            <==> number_upto(a, 65535) is Some && number_upto(b, 65535) is Some),
        s == a.push(':') + b && !a.contains(':') && !b.contains(':') && port_pair(s) is Some ==> (
        port_pair(s)->0).0 == number_upto(a, 65535)->0 && (port_pair(s)->0).1 == number_upto(
            b,
            65535,
        )->0,
{
    if !s.contains(':') {
        lemma_pieces_single(s, ':');
    }
    if s == a.push(':') + b && !a.contains(':') && !b.contains(':') {
        lemma_pieces_head(a, ':', b);
        lemma_pieces_single(b, ':');
        let p = pieces(s, ':');
        assert(p =~= seq![a, b]);
    }
}

/// The ports of the API, of HTTP and of HTTPS are published, and each additional one.
pub proof fn law_all_ports_are_published(c: ClusterConfig, p: (u16, u16))
    ensures
        c.ports().contains(p) <==> p == (c.api_port, c.api_port) || p == (c.http_port, c.http_port)
            || p == (c.https_port, c.https_port) || c.additional_ports@.contains(p),
        c.ports().len() == c.additional_ports@.len() + 3,
{
    let s = c.ports();
    assert(s[0] == (c.api_port, c.api_port));
    assert(s[1] == (c.http_port, c.http_port));
    assert(s[2] == (c.https_port, c.https_port));
    if c.additional_ports@.contains(p) {
        let i = choose|i: int| 0 <= i < c.additional_ports@.len() && c.additional_ports@[i] == p;
        assert(s[i + 3] == p);
    }
    if s.contains(p) {
        let i = choose|i: int| 0 <= i < s.len() && s[i] == p;
        if i >= 3 {
            assert(c.additional_ports@[i - 3] == p);
        }
    }
}

} // verus!
