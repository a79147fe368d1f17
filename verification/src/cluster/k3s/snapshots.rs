//! Snapshots: images of an initialised cluster, from which later ones start faster.

use vstd::prelude::*;
use sha2::{Digest, Sha256};
use crate::cluster::config::{
    law_port_text_reads_back, port_mapping_text, port_text, ClusterConfig,
};
use crate::cluster::docker::queries::{find_pair, pair_views};
use crate::cluster::k3s::launch::{LOCAL_PV_STORAGE_PATH, RANCHER_DATA_PATH};
use crate::machine::{
    good, no_lines, reason, silent, tells_success, Event, Next, NextView, Step, StepView,
};
use crate::number::{decimal, law_decimal_injective, u64_text};
use crate::output::{info, say, success, warning, OutputLine, OutputType};
use crate::text::{
    begins, chars_of, has_sub, no_texts, occurs_at, push_text, same, starts_with, string_of_range,
    views,
};
use crate::textmap::lookup;

verus! {

/// What the names of all snapshots begin with.
pub const SNAPSHOT_PREFIX: &'static str = "k3dev-snapshot-";

/// The label of a deep snapshot.
pub const DEEP_LABEL: &'static str = "k3dev.snapshot.deep";

/// The SHA-256 digest of the UTF-8 bytes of a text, in hexadecimal notation.
pub uninterp spec fn sha256_of(s: Seq<char>) -> Seq<char>;

/// Whether a character is a digit of the hexadecimal notation.
pub open spec fn hex_digit(c: char) -> bool {
    ('0' <= c && c <= '9') || ('a' <= c && c <= 'f')
}

/// Calls `Sha256::digest` on the UTF-8 bytes of a text and formats the digest with `{:x}`. The
/// result is a function of the text alone: 64 hexadecimal digits, two for each of 32 bytes.
#[verifier::external_body]
fn sha256_hex(s: &str) -> (r: String)
    ensures
        r@ == sha256_of(s@),
        r@.len() == 64,
        forall|i: int| 0 <= i < r@.len() ==> hex_digit(#[trigger] r@[i]),
{
    format!("{:x}", Sha256::digest(s.as_bytes()))
}

// ---------------------------------------------------------------------------
// Names
// ---------------------------------------------------------------------------

/// Whether a character stands in an image's name as it is: an ASCII letter, a digit or a dash.
pub open spec fn is_plain(c: char) -> bool {
    ('a' <= c && c <= 'z') || ('A' <= c && c <= 'Z') || ('0' <= c && c <= '9') || c == '-'
}

/// A character that an image's name can hold in place of `c`.
pub open spec fn plain_char(c: char) -> char {
    if is_plain(c) {
        c
    } else {
        '-'
    }
}

/// A version with a dash in place of each dot and each special character.
pub open spec fn plain_version(s: Seq<char>) -> Seq<char> {
    Seq::new(s.len(), |i: int| plain_char(s[i]))
}

/// A version with a dash in place of each dot and each special character.
pub fn sanitize_version(version: &str) -> (r: String)
    ensures
        r@ == plain_version(version@),
{
    let v = chars_of(version);
    let mut out = String::new();
    let mut i: usize = 0;
    while i < v.len()
        invariant
            v@ == version@,
            i <= v@.len(),
            out@.len() == i,
            forall|j: int| 0 <= j < i ==> out@[j] == plain_char(v@[j]),
        decreases v@.len() - i,
    {
        let c = v[i];
        out.push(
            if ('a' <= c && c <= 'z') || ('A' <= c && c <= 'Z') || ('0' <= c && c <= '9') || c
                == '-' {
                c
            } else {
                '-'
            },
        );
        i = i + 1;
    }
    assert(out@ =~= plain_version(version@));
    out
}

/// The notations of pairs of ports, one after another.
pub open spec fn ports_text(ports: Seq<(u16, u16)>) -> Seq<char>
    decreases ports.len(),
{
    if ports.len() == 0 {
        Seq::empty()
    } else {
        ports_text(ports.drop_last()) + port_text(ports.last())
    }
}

/// What of the settings shapes the state of a cluster, as one text.
pub open spec fn state_text(c: ClusterConfig) -> Seq<char> {
    c.k3s_version@ + c.domain@ + decimal(c.api_port as nat) + decimal(c.http_port as nat) + decimal(
        c.https_port as nat,
    ) + ports_text(c.additional_ports@) + RANCHER_DATA_PATH@ + LOCAL_PV_STORAGE_PATH@ + "--docker"@
        + "--disable=metrics-server"@ + "--disable=servicelb"@
}

/// The mark of the settings: the first eight digits of a digest, given in full.
pub open spec fn mark_in(digest: Seq<char>) -> Seq<char> {
    digest.take(8)
}

/// The mark of the settings.
pub open spec fn config_hash(c: ClusterConfig) -> Seq<char> {
    mark_in(sha256_of(state_text(c)))
}

/// The name of the snapshot for a version and a mark.
pub open spec fn snapshot_name(version: Seq<char>, mark: Seq<char>) -> Seq<char> {
    SNAPSHOT_PREFIX@ + plain_version(version) + "-"@ + mark
}

/// The name of the snapshot for the settings.
pub open spec fn snapshot_image(c: ClusterConfig) -> Seq<char> {
    snapshot_name(c.k3s_version@, config_hash(c))
}

/// What of the settings shapes the state of a cluster, as one text.
pub fn state_description(c: &ClusterConfig) -> (r: String)
    ensures
        r@ == state_text(*c),
{
    let mut s = c.k3s_version.clone();
    s.append(c.domain.as_str());
    s.append(u64_text(c.api_port as u64).as_str());
    s.append(u64_text(c.http_port as u64).as_str());
    s.append(u64_text(c.https_port as u64).as_str());
    let ghost head = s@;
    let mut i: usize = 0;
    assert(c.additional_ports@.take(0) =~= Seq::<(u16, u16)>::empty());
    assert(s@ =~= head + ports_text(c.additional_ports@.take(0)));
    while i < c.additional_ports.len()
        invariant
            i <= c.additional_ports@.len(),
            s@ == head + ports_text(c.additional_ports@.take(i as int)),
        decreases c.additional_ports@.len() - i,
    {
        let (h, p) = c.additional_ports[i];
        assert(c.additional_ports@.take(i + 1).drop_last() =~= c.additional_ports@.take(i as int));
        let ghost before = ports_text(c.additional_ports@.take(i as int));
        s.append(port_mapping_text(h, p).as_str());
        assert(head + before + port_text((h, p)) =~= head + (before + port_text((h, p))));
        i = i + 1;
    }
    assert(c.additional_ports@.take(i as int) =~= c.additional_ports@);
    s.append(RANCHER_DATA_PATH);
    s.append(LOCAL_PV_STORAGE_PATH);
    s.append("--docker");
    s.append("--disable=metrics-server");
    s.append("--disable=servicelb");
    s
}

/// The mark in a digest: its first eight digits.
pub fn mark_of(digest: &str) -> (r: String)
    requires
        digest@.len() >= 8,
    ensures
        r@ == mark_in(digest@),
{
    let v = chars_of(digest);
    let r = string_of_range(&v, 0, 8);
    assert(r@ =~= mark_in(digest@));
    r
}

/// The mark of the settings.
pub fn calculate_config_hash(c: &ClusterConfig) -> (r: String)
    ensures
        r@ == config_hash(*c),
        r@.len() == 8,
        forall|i: int| 0 <= i < 8 ==> hex_digit(#[trigger] r@[i]),
{
    let digest = sha256_hex(state_description(c).as_str());
    let r = mark_of(digest.as_str());
    assert forall|i: int| 0 <= i < 8 implies hex_digit(#[trigger] r@[i]) by {
        assert(r@[i] == digest@[i]);
    }
    r
}

/// The name of the snapshot for a version and a mark.
pub fn name_snapshot(version: &str, mark: &str) -> (r: String)
    ensures
        r@ == snapshot_name(version@, mark@),
{
    let mut s = SNAPSHOT_PREFIX.to_owned();
    s.append(sanitize_version(version).as_str());
    s.append("-");
    s.append(mark);
    s
}

/// The name of the snapshot for the settings.
pub fn compute_snapshot_image_name(c: &ClusterConfig) -> (r: String)
    ensures
        r@ == snapshot_image(*c),
{
    name_snapshot(c.k3s_version.as_str(), calculate_config_hash(c).as_str())
}

/// A version in an image's name holds ASCII letters, digits and dashes alone: these are kept, and a
/// dash stands for every other character.
pub proof fn law_versions_are_made_plain(s: Seq<char>, i: int)
    requires
        0 <= i < s.len(),
    ensures
        plain_version(s).len() == s.len(),
        is_plain(plain_version(s)[i]),
        is_plain(s[i]) ==> plain_version(s)[i] == s[i],
        !is_plain(s[i]) ==> plain_version(s)[i] == '-',
{
}

/// Settings that do not shape the state of a cluster do not change its snapshot: names, hooks,
/// switches and access.
pub proof fn law_snapshot_depends_on_state_alone(a: ClusterConfig, b: ClusterConfig)
    requires
        a.k3s_version@ == b.k3s_version@,
        a.domain@ == b.domain@,
        a.api_port == b.api_port,
        a.http_port == b.http_port,
        a.https_port == b.https_port,
        a.additional_ports@ == b.additional_ports@,
    ensures
        snapshot_image(a) == snapshot_image(b),
{
}

/// What stands between a common head and a common tail tells texts apart.
proof fn lemma_middle(head: Seq<char>, a: Seq<char>, b: Seq<char>, tail: Seq<char>)
    requires
        head + a + tail == head + b + tail,
    ensures
        a == b,
{
    let x = head + a + tail;
    let y = head + b + tail;
    assert(x.len() == y.len());
    assert(a.len() == b.len());
    assert(x.subrange(head.len() as int, (head.len() + a.len()) as int) =~= a);
    assert(y.subrange(head.len() as int, (head.len() + b.len()) as int) =~= b);
}

proof fn lemma_ports_text_concat(a: Seq<(u16, u16)>, b: Seq<(u16, u16)>)
    ensures
        ports_text(a + b) == ports_text(a) + ports_text(b),
    decreases b.len(),
{
    if b.len() == 0 {
        assert(a + b =~= a);
        assert(ports_text(a + b) =~= ports_text(a) + ports_text(b));
    } else {
        assert((a + b).drop_last() =~= a + b.drop_last());
        assert((a + b).last() == b.last());
        lemma_ports_text_concat(a, b.drop_last());
        assert(ports_text(a + b) =~= ports_text(a) + ports_text(b));
    }
}

/// What is hashed for a snapshot tells settings apart: two configurations that differ in their
/// version, their domain or one of the ports of the cluster alone have different texts.
pub proof fn law_every_setting_counts(a: ClusterConfig, b: ClusterConfig)
    requires
        a.additional_ports@ == b.additional_ports@,
    ensures
        state_text(a) == state_text(b) ==> {
            &&& a.domain@ == b.domain@ && a.api_port == b.api_port && a.http_port == b.http_port
                && a.https_port == b.https_port ==> a.k3s_version@ == b.k3s_version@
            &&& a.k3s_version@ == b.k3s_version@ && a.api_port == b.api_port && a.http_port
                == b.http_port && a.https_port == b.https_port ==> a.domain@ == b.domain@
            &&& a.k3s_version@ == b.k3s_version@ && a.domain@ == b.domain@ && a.http_port
                == b.http_port && a.https_port == b.https_port ==> a.api_port == b.api_port
            &&& a.k3s_version@ == b.k3s_version@ && a.domain@ == b.domain@ && a.api_port
                == b.api_port && a.https_port == b.https_port ==> a.http_port == b.http_port
            &&& a.k3s_version@ == b.k3s_version@ && a.domain@ == b.domain@ && a.api_port
                == b.api_port && a.http_port == b.http_port ==> a.https_port == b.https_port
        },
{
    if state_text(a) == state_text(b) {
        let tail = ports_text(a.additional_ports@) + RANCHER_DATA_PATH@ + LOCAL_PV_STORAGE_PATH@
            + "--docker"@ + "--disable=metrics-server"@ + "--disable=servicelb"@;
        let (v, w) = (a.k3s_version@, b.k3s_version@);
        let (d, e) = (a.domain@, b.domain@);
        let (p1, q1) = (decimal(a.api_port as nat), decimal(b.api_port as nat));
        let (p2, q2) = (decimal(a.http_port as nat), decimal(b.http_port as nat));
        let (p3, q3) = (decimal(a.https_port as nat), decimal(b.https_port as nat));
        let nothing = Seq::<char>::empty();
        assert(state_text(a) =~= v + d + p1 + p2 + p3 + tail);
        assert(state_text(b) =~= w + e + q1 + q2 + q3 + tail);
        if d == e && p1 == q1 && p2 == q2 && p3 == q3 {
            assert(state_text(a) =~= nothing + v + (d + p1 + p2 + p3 + tail));
            assert(state_text(b) =~= nothing + w + (d + p1 + p2 + p3 + tail));
            lemma_middle(nothing, v, w, d + p1 + p2 + p3 + tail);
        }
        if v == w && p1 == q1 && p2 == q2 && p3 == q3 {
            assert(state_text(a) =~= v + d + (p1 + p2 + p3 + tail));
            assert(state_text(b) =~= v + e + (p1 + p2 + p3 + tail));
            lemma_middle(v, d, e, p1 + p2 + p3 + tail);
        }
        if v == w && d == e && p2 == q2 && p3 == q3 {
            assert(state_text(a) =~= v + d + p1 + (p2 + p3 + tail));
            assert(state_text(b) =~= v + d + q1 + (p2 + p3 + tail));
            lemma_middle(v + d, p1, q1, p2 + p3 + tail);
            law_decimal_injective(a.api_port as nat, b.api_port as nat);
        }
        if v == w && d == e && p1 == q1 && p3 == q3 {
            assert(state_text(a) =~= v + d + p1 + p2 + (p3 + tail));
            assert(state_text(b) =~= v + d + p1 + q2 + (p3 + tail));
            lemma_middle(v + d + p1, p2, q2, p3 + tail);
            law_decimal_injective(a.http_port as nat, b.http_port as nat);
        }
        if v == w && d == e && p1 == q1 && p2 == q2 {
            assert(state_text(a) =~= v + d + p1 + p2 + p3 + tail);
            assert(state_text(b) =~= v + d + p1 + p2 + q3 + tail);
            lemma_middle(v + d + p1 + p2, p3, q3, tail);
            law_decimal_injective(a.https_port as nat, b.https_port as nat);
        }
    }
}

/// So do the additional ports: changing one of them, or adding more behind them, changes the text.
pub proof fn law_additional_ports_count(
    a: ClusterConfig,
    b: ClusterConfig,
    i: int,
    more: Seq<(u16, u16)>,
)
    requires
        a.k3s_version@ == b.k3s_version@,
        a.domain@ == b.domain@,
        a.api_port == b.api_port,
        a.http_port == b.http_port,
        a.https_port == b.https_port,
    ensures
        0 <= i < a.additional_ports@.len() && b.additional_ports@ == a.additional_ports@.update(
            i,
            b.additional_ports@[i],
        ) && state_text(a) == state_text(b) ==> a.additional_ports@[i] == b.additional_ports@[i],
        more.len() > 0 && b.additional_ports@ == a.additional_ports@ + more ==> state_text(a)
            != state_text(b),
{
    let tail = RANCHER_DATA_PATH@ + LOCAL_PV_STORAGE_PATH@ + "--docker"@
        + "--disable=metrics-server"@ + "--disable=servicelb"@;
    let head = a.k3s_version@ + a.domain@ + decimal(a.api_port as nat) + decimal(
        a.http_port as nat,
    ) + decimal(a.https_port as nat);
    let (p, q) = (a.additional_ports@, b.additional_ports@);
    assert(state_text(a) =~= head + ports_text(p) + tail);
    assert(state_text(b) =~= head + ports_text(q) + tail);
    if state_text(a) == state_text(b) {
        lemma_middle(head, ports_text(p), ports_text(q), tail);
        if 0 <= i < p.len() && q == p.update(i, q[i]) {
            let (x, y) = (p.take(i), p.skip(i + 1));
            assert(p =~= x + seq![p[i]] + y);
            assert(q =~= x + seq![q[i]] + y);
            lemma_ports_text_concat(x + seq![p[i]], y);
            lemma_ports_text_concat(x, seq![p[i]]);
            lemma_ports_text_concat(x + seq![q[i]], y);
            lemma_ports_text_concat(x, seq![q[i]]);
            lemma_one_port(p[i]);
            lemma_one_port(q[i]);
            lemma_middle(ports_text(x), port_text(p[i]), port_text(q[i]), ports_text(y));
            law_port_text_reads_back(p[i]);
            law_port_text_reads_back(q[i]);
        }
        if more.len() > 0 && q == p + more {
            lemma_ports_text_concat(p, more);
            reveal_strlit(":");
            assert(ports_text(more).len() > 0);
        }
    }
}

proof fn lemma_one_port(p: (u16, u16))
    ensures
        ports_text(seq![p]) == port_text(p),
{
    assert(seq![p].drop_last() =~= Seq::<(u16, u16)>::empty());
    assert(ports_text(seq![p].drop_last()) =~= Seq::<char>::empty());
    assert(ports_text(seq![p]) =~= port_text(p));
}

/// Marks tell snapshots apart: the same name means the same mark, and the same version in plain
/// characters. The mark shows eight digits of the digest as they stand.
pub proof fn law_marks_tell_snapshots_apart(
    v: Seq<char>,
    w: Seq<char>,
    a: Seq<char>,
    b: Seq<char>,
    digest: Seq<char>,
)
    requires
        a.len() == b.len(),
        digest.len() >= 8,
    ensures
        snapshot_name(v, a) == snapshot_name(w, b) ==> a == b && plain_version(v) == plain_version(
            w,
        ),
        begins(digest, mark_in(digest)) && mark_in(digest).len() == 8,
{
    assert(digest.subrange(0, 8) =~= mark_in(digest));
    let x = snapshot_name(v, a);
    let y = snapshot_name(w, b);
    if x == y {
        let n = SNAPSHOT_PREFIX@.len();
        assert(x.len() == n + v.len() + "-"@.len() + a.len());
        assert(y.len() == n + w.len() + "-"@.len() + b.len());
        assert(x.subrange(x.len() - a.len(), x.len() as int) =~= a);
        assert(y.subrange(y.len() - b.len(), y.len() as int) =~= b);
        assert(x.subrange(n as int, (n + v.len()) as int) =~= plain_version(v));
        assert(y.subrange(n as int, (n + w.len()) as int) =~= plain_version(w));
    }
}

/// Every snapshot's name is found by the prefix of snapshots.
pub proof fn law_snapshot_names_share_a_prefix(c: ClusterConfig)
    ensures
        begins(snapshot_image(c), SNAPSHOT_PREFIX@),
{
    let n = SNAPSHOT_PREFIX@.len() as int;
    assert(snapshot_image(c).subrange(0, n) =~= SNAPSHOT_PREFIX@);
}

// ---------------------------------------------------------------------------
// Labels
// ---------------------------------------------------------------------------

/// The labels of a snapshot that was created at this time.
pub open spec fn labels_for(c: ClusterConfig, created: Seq<char>, deep: bool) -> Seq<
    (Seq<char>, Seq<char>),
> {
    let l = Seq::<(Seq<char>, Seq<char>)>::empty().push(("k3dev.snapshot.created"@, created)).push(
        ("k3dev.k3s_version"@, c.k3s_version@),
    ).push(("k3dev.config_hash"@, config_hash(c))).push(("k3dev.domain"@, c.domain@));
    if deep {
        l.push((DEEP_LABEL@, "true"@))
    } else {
        l
    }
}

/// Whether labels are those of a deep snapshot.
pub open spec fn says_deep(labels: Seq<(Seq<char>, Seq<char>)>) -> bool {
    lookup(labels, DEEP_LABEL@) == Some("true"@)
}

fn add_label(v: &mut Vec<(String, String)>, k: &str, t: String)
    ensures
        pair_views(final(v)@) == pair_views(old(v)@).push((k@, t@)),
{
    let ghost before = pair_views(v@);
    v.push((k.to_owned(), t));
    assert(pair_views(v@) =~= before.push((k@, t@)));
}

/// The labels of a snapshot that was created at this time.
pub fn snapshot_labels(c: &ClusterConfig, created: &str, deep: bool) -> (r: Vec<(String, String)>)
    ensures
        pair_views(r@) == labels_for(*c, created@, deep),
{
    let mut v: Vec<(String, String)> = Vec::new();
    assert(pair_views(v@) =~= Seq::<(Seq<char>, Seq<char>)>::empty());
    add_label(&mut v, "k3dev.snapshot.created", created.to_owned());
    add_label(&mut v, "k3dev.k3s_version", c.k3s_version.clone());
    add_label(&mut v, "k3dev.config_hash", calculate_config_hash(c));
    add_label(&mut v, "k3dev.domain", c.domain.clone());
    if deep {
        add_label(&mut v, DEEP_LABEL, "true".to_owned());
    }
    v
}

/// Whether labels are those of a deep snapshot.
pub fn is_deep_snapshot(labels: &Vec<(String, String)>) -> (r: bool)
    ensures
        r == says_deep(pair_views(labels@)),
{
    match find_pair(labels, DEEP_LABEL) {
        Some(v) => same(v.as_str(), "true"),
        None => false,
    }
}

/// A snapshot is recognised as deep exactly when it was made as one.
pub proof fn law_deep_snapshots_are_recognised(c: ClusterConfig, created: Seq<char>, deep: bool)
    ensures
        says_deep(labels_for(c, created, deep)) == deep,
{
    reveal_strlit("k3dev.snapshot.created");
    reveal_strlit("k3dev.k3s_version");
    reveal_strlit("k3dev.config_hash");
    reveal_strlit("k3dev.domain");
    reveal_strlit("k3dev.snapshot.deep");
    let l = labels_for(c, created, deep);
    let k = DEEP_LABEL@;
    crate::textmap::lemma_key_index(l, k);
    let i = crate::textmap::key_index(l, k);
    assert("k3dev.snapshot.created"@.len() != k.len());
    assert("k3dev.k3s_version"@.len() != k.len());
    assert("k3dev.config_hash"@.len() != k.len());
    assert("k3dev.domain"@.len() != k.len());
    assert(l[0].0 != k && l[1].0 != k && l[2].0 != k && l[3].0 != k);
    if deep {
        assert(l[4] == (k, "true"@));
        assert(i == 4);
    } else {
        assert(l.len() == 4);
        if i < 4 {
            assert(l[i].0 == k);
        }
    }
}

/// The labels of a snapshot tell what it was made of: when, for which version and domain, and under
/// which mark.
pub proof fn law_labels_tell_the_settings(c: ClusterConfig, created: Seq<char>, deep: bool)
    ensures
        ({
            let l = labels_for(c, created, deep);
            &&& lookup(l, "k3dev.snapshot.created"@) == Some(created)
            &&& lookup(l, "k3dev.k3s_version"@) == Some(c.k3s_version@)
            &&& lookup(l, "k3dev.config_hash"@) == Some(config_hash(c))
            &&& lookup(l, "k3dev.domain"@) == Some(c.domain@)
        }),
{
    reveal_strlit("k3dev.snapshot.created");
    reveal_strlit("k3dev.k3s_version");
    reveal_strlit("k3dev.config_hash");
    reveal_strlit("k3dev.domain");
    let l = labels_for(c, created, deep);
    let k0 = "k3dev.snapshot.created"@;
    let k1 = "k3dev.k3s_version"@;
    let k2 = "k3dev.config_hash"@;
    let k3 = "k3dev.domain"@;
    crate::textmap::lemma_key_index(l, k0);
    crate::textmap::lemma_key_index(l, k1);
    crate::textmap::lemma_key_index(l, k2);
    crate::textmap::lemma_key_index(l, k3);
    assert(k0.len() == 22 && k3.len() == 12);
    assert(k1[6] == 'k' && k2[6] == 'c');
    assert(k1.len() == 17 && k2.len() == 17);
    assert(l[0].0 == k0 && l[1].0 == k1 && l[2].0 == k2 && l[3].0 == k3);
}

// ---------------------------------------------------------------------------
// Making a snapshot
// ---------------------------------------------------------------------------

/// An action on the way to a snapshot.
#[derive(Debug, Clone, Copy, PartialEq, Eq, Structural)]
pub enum SnapshotAction {
    /// Copy the data of the cluster into the container.
    SaveState,
    /// Make an image of the container.
    Commit,
}

/// The command that copies the data of the cluster into the container.
pub open spec fn copy_command() -> Seq<char> {
    "mkdir -p /snapshot-data && rm -rf /snapshot-data/rancher /snapshot-data/pv && cp -a "@
        + RANCHER_DATA_PATH@ + " /snapshot-data/rancher && cp -a "@ + LOCAL_PV_STORAGE_PATH@
        + " /snapshot-data/pv"@
}

/// The command that copies the data of the cluster into the container.
pub fn snapshot_copy_command() -> (r: String)
    ensures
        r@ == copy_command(),
{
    let mut s =
        "mkdir -p /snapshot-data && rm -rf /snapshot-data/rancher /snapshot-data/pv && cp -a ".to_owned();
    s.append(RANCHER_DATA_PATH);
    s.append(" /snapshot-data/rancher && cp -a ");
    s.append(LOCAL_PV_STORAGE_PATH);
    s.append(" /snapshot-data/pv");
    s
}

/// The first step of making a snapshot.
pub open spec fn snapshot_begin(image: Seq<char>, deep: bool) -> StepView<SnapshotAction, ()> {
    (
        if deep {
            silent().push(info("Creating deep snapshot: "@ + image + "..."@))
        } else {
            silent().push(info("Creating cluster snapshot: "@ + image + "..."@)).push(
                info("Saving cluster state into snapshot..."@),
            )
        },
        NextView::Go(SnapshotAction::SaveState),
    )
}

/// The step that follows an action. Only for snapshots that are not deep is trouble reported.
pub open spec fn snapshot_next(
    a: SnapshotAction,
    ev: Event,
    image: Seq<char>,
    deep: bool,
) -> StepView<SnapshotAction, ()> {
    match a {
        SnapshotAction::SaveState => if good(ev) {
            (
                if deep {
                    silent()
                } else {
                    silent().push(info("Cluster state saved to snapshot data"@))
                },
                NextView::Go(SnapshotAction::Commit),
            )
        } else {
            (
                if deep {
                    silent()
                } else {
                    silent().push(warning("Failed to save cluster state: "@ + reason(ev)))
                },
                NextView::Fail(reason(ev)),
            )
        },
        SnapshotAction::Commit => if good(ev) {
            (
                silent().push(
                    success(
                        if deep {
                            "Deep snapshot created: "@ + image
                        } else {
                            "Snapshot created: "@ + image
                        },
                    ),
                ),
                NextView::Done(()),
            )
        } else {
            (
                if deep {
                    silent()
                } else {
                    silent().push(
                        warning("Snapshot creation failed (cluster still usable): "@ + reason(ev)),
                    )
                },
                NextView::Fail(reason(ev)),
            )
        },
    }
}

fn with_image(head: &str, image: &str, tail: &str) -> (r: String)
    ensures
        r@ == head@ + image@ + tail@,
{
    let mut s = head.to_owned();
    s.append(image);
    s.append(tail);
    s
}

fn two(head: &str, tail: &str) -> (r: String)
    ensures
        r@ == head@ + tail@,
{
    let mut s = head.to_owned();
    s.append(tail);
    s
}

/// The first step of making a snapshot.
pub fn begin_snapshot(image: &str, deep: bool) -> (r: Step<SnapshotAction, ()>)
    ensures
        r@ == snapshot_begin(image@, deep),
{
    let mut lines = no_lines();
    if deep {
        let t = with_image("Creating deep snapshot: ", image, "...");
        say(&mut lines, OutputLine::info(t.as_str()));
    } else {
        let t = with_image("Creating cluster snapshot: ", image, "...");
        say(&mut lines, OutputLine::info(t.as_str()));
        say(&mut lines, OutputLine::info("Saving cluster state into snapshot..."));
    }
    Step { lines, next: Next::Go(SnapshotAction::SaveState) }
}

/// The step of making a snapshot that follows an action.
pub fn create_snapshot(a: SnapshotAction, ev: &Event, image: &str, deep: bool) -> (r: Step<
    SnapshotAction,
    (),
>)
    ensures
        r@ == snapshot_next(a, *ev, image@, deep),
{
    let mut lines = no_lines();
    match a {
        SnapshotAction::SaveState => if ev.is_good() {
            if !deep {
                say(&mut lines, OutputLine::info("Cluster state saved to snapshot data"));
            }
            Step { lines, next: Next::Go(SnapshotAction::Commit) }
        } else {
            let e = ev.why();
            if !deep {
                let t = two("Failed to save cluster state: ", e.as_str());
                say(&mut lines, OutputLine::warning(t.as_str()));
            }
            Step { lines, next: Next::Fail(e) }
        },
        SnapshotAction::Commit => if ev.is_good() {
            let t = if deep {
                two("Deep snapshot created: ", image)
            } else {
                two("Snapshot created: ", image)
            };
            say(&mut lines, OutputLine::success(t.as_str()));
            Step { lines, next: Next::Done(()) }
        } else {
            let e = ev.why();
            if !deep {
                let t = two("Snapshot creation failed (cluster still usable): ", e.as_str());
                say(&mut lines, OutputLine::warning(t.as_str()));
            }
            Step { lines, next: Next::Fail(e) }
        },
    }
}

/// No image is made of a container into which the data could not be copied.
pub proof fn law_unsaved_state_is_not_committed(ev: Event, image: Seq<char>, deep: bool)
    requires
        !good(ev),
    ensures
        snapshot_next(SnapshotAction::SaveState, ev, image, deep).1 == NextView::<
            SnapshotAction,
            (),
        >::Fail(reason(ev)),
{
}

/// A snapshot is an image only after the data was copied; it is said to be made exactly where the
/// image was made, and what goes wrong fails it, but for a deep one without a word.
pub proof fn law_snapshots_are_made_in_order(
    a: SnapshotAction,
    ev: Event,
    image: Seq<char>,
    deep: bool,
)
    ensures
        snapshot_begin(image, deep).1 == NextView::<SnapshotAction, ()>::Go(
            SnapshotAction::SaveState,
        ),
        snapshot_next(a, ev, image, deep).1 matches NextView::Go(b) ==> b is Commit && a is SaveState
            && good(ev),
        snapshot_next(a, ev, image, deep).1 is Done <==> a is Commit && good(ev),
        snapshot_next(a, ev, image, deep).1 is Fail <==> !good(ev),
        snapshot_next(a, ev, image, deep).1 matches NextView::Fail(e) ==> e == reason(ev),
        tells_success(snapshot_next(a, ev, image, deep).0) <==> a is Commit && good(ev),
        deep && !good(ev) ==> snapshot_next(a, ev, image, deep).0.len() == 0,
        !deep && !good(ev) ==> snapshot_next(a, ev, image, deep).0.len() > 0,
{
    if a is Commit && good(ev) {
        assert(snapshot_next(a, ev, image, deep).0[0].0 == OutputType::Success);
    }
}

/// The command that saves the state copies both the data of the cluster and its volumes.
pub proof fn law_all_data_is_copied()
    ensures
        has_sub(copy_command(), "cp -a "@ + RANCHER_DATA_PATH@),
        has_sub(copy_command(), "cp -a "@ + LOCAL_PV_STORAGE_PATH@),
{
    let a =
        "mkdir -p /snapshot-data && rm -rf /snapshot-data/rancher /snapshot-data/pv && cp -a "@;
    let b = " /snapshot-data/rancher && cp -a "@;
    reveal_strlit(
        "mkdir -p /snapshot-data && rm -rf /snapshot-data/rancher /snapshot-data/pv && cp -a ",
    );
    reveal_strlit(" /snapshot-data/rancher && cp -a ");
    reveal_strlit("cp -a ");
    let (x, y) = (RANCHER_DATA_PATH@, LOCAL_PV_STORAGE_PATH@);
    let c = "cp -a "@;
    let i = a.len() - 6;
    assert(a.subrange(i, a.len() as int) =~= c);
    assert(copy_command().subrange(i, i + (c + x).len()) =~= c + x);
    assert(occurs_at(copy_command(), c + x, i));
    let j = a.len() + x.len() + b.len() - 6;
    assert(b.subrange(b.len() - 6, b.len() as int) =~= c);
    assert(copy_command().subrange(j, j + (c + y).len()) =~= c + y);
    assert(occurs_at(copy_command(), c + y, j));
}

// ---------------------------------------------------------------------------
// Removing snapshots
// ---------------------------------------------------------------------------

/// The snapshots that are not the current one.
pub open spec fn outdated(all: Seq<Seq<char>>, current: Seq<char>) -> Seq<Seq<char>>
    decreases all.len(),
{
    if all.len() == 0 {
        Seq::empty()
    } else if begins(all.last(), current) {
        outdated(all.drop_last(), current)
    } else {
        outdated(all.drop_last(), current).push(all.last())
    }
}

/// The snapshots to remove beside the current one.
pub fn cleanup_old_snapshots(all: &Vec<String>, current: &str) -> (r: Vec<String>)
    ensures
        views(r@) == outdated(views(all@), current@),
{
    let mut out = no_texts();
    let ghost names = views(all@);
    let mut i: usize = 0;
    assert(names.take(0) =~= Seq::<Seq<char>>::empty());
    while i < all.len()
        invariant
            i <= all@.len(),
            names == views(all@),
            views(out@) == outdated(names.take(i as int), current@),
        decreases all@.len() - i,
    {
        assert(names.take(i + 1).drop_last() =~= names.take(i as int));
        assert(names.take(i + 1).last() == all@[i as int]@);
        if !starts_with(all[i].as_str(), current) {
            push_text(&mut out, all[i].as_str());
        }
        i = i + 1;
    }
    assert(names.take(i as int) =~= names);
    out
}

/// What is said once so many outdated snapshots have been removed.
pub fn cleanup_report(removed: u64) -> (r: Option<OutputLine>)
    ensures
        match r {
            Some(l) => removed > 0 && l@ == info(
                "Cleaned up "@ + decimal(removed as nat) + " old snapshot(s)"@,
            ),
            None => removed == 0,
        },
{
    if removed > 0 {
        let n = u64_text(removed);
        let t = with_image("Cleaned up ", n.as_str(), " old snapshot(s)");
        Some(OutputLine::info(t.as_str()))
    } else {
        None
    }
}

/// What is said before all snapshots are removed; nothing where there are none.
pub fn delete_snapshots(all: &Vec<String>) -> (r: Option<OutputLine>)
    ensures
        match r {
            Some(l) => all@.len() > 0 && l@ == info("Removing snapshot images..."@),
            None => all@.len() == 0,
        },
{
    if all.len() > 0 {
        Some(OutputLine::info("Removing snapshot images..."))
    } else {
        None
    }
}

/// What is said once so many snapshots have been removed.
pub fn delete_report(removed: u64) -> (r: Option<OutputLine>)
    ensures
        match r {
            Some(l) => removed > 0 && l@ == info(
                "Removed "@ + decimal(removed as nat) + " snapshot image(s)"@,
            ),
            None => removed == 0,
        },
{
    if removed > 0 {
        let n = u64_text(removed);
        let t = with_image("Removed ", n.as_str(), " snapshot image(s)");
        Some(OutputLine::info(t.as_str()))
    } else {
        None
    }
}

/// The current snapshot, under any tag, is never removed as outdated; all others are.
pub proof fn law_current_snapshot_is_kept(all: Seq<Seq<char>>, current: Seq<char>, name: Seq<char>)
    ensures
        outdated(all, current).contains(name) <==> all.contains(name) && !begins(name, current),
    decreases all.len(),
{
    if all.len() > 0 {
        let d = all.drop_last();
        law_current_snapshot_is_kept(d, current, name);
        assert(all =~= d.push(all.last()));
        if all.contains(name) {
            let i = choose|i: int| 0 <= i < all.len() && all[i] == name;
            if i < d.len() {
                assert(d[i] == name);
            }
        }
        if d.contains(name) {
            let i = choose|i: int| 0 <= i < d.len() && d[i] == name;
            assert(all[i] == name);
        }
        let o = outdated(d, current);
        if !begins(all.last(), current) {
            assert(outdated(all, current) == o.push(all.last()));
            if o.contains(name) {
                let i = choose|i: int| 0 <= i < o.len() && o[i] == name;
                assert(o.push(all.last())[i] == name);
            }
            assert(o.push(all.last())[o.len() as int] == all.last());
            if o.push(all.last()).contains(name) {
                let i = choose|i: int|
                    0 <= i < o.push(all.last()).len() && o.push(all.last())[i] == name;
                if i < o.len() {
                    assert(o[i] == name);
                }
            }
        }
        assert(all[all.len() - 1] == all.last());
    }
}

/// Trouble with a snapshot is told unless it is a deep one, and a snapshot is told to be there only once
/// it is.
pub proof fn law_trouble_with_snapshots_is_told(
    a: SnapshotAction,
    ev: Event,
    image: Seq<char>,
    deep: bool,
)
    ensures
        !good(ev) ==> snapshot_next(a, ev, image, deep).1 is Fail,
        !good(ev) && deep ==> snapshot_next(a, ev, image, deep).0.len() == 0,
        !good(ev) && !deep ==> snapshot_next(a, ev, image, deep).0.len() == 1,
        good(ev) && a is SaveState ==> snapshot_next(a, ev, image, deep).1 == NextView::<
            SnapshotAction,
            (),
        >::Go(SnapshotAction::Commit),
        good(ev) && a is Commit ==> crate::text::ends(
            snapshot_next(a, ev, image, deep).0.last().1,
            image,
        ),
        crate::machine::tells_success(snapshot_next(a, ev, image, deep).0) <==> a is Commit && good(
            ev,
        ),
{
    let l = snapshot_next(a, ev, image, deep).0;
    if good(ev) && a is Commit {
        let t = l.last().1;
        assert(t.subrange(t.len() - image.len(), t.len() as int) =~= image);
        assert(l[0] == l.last());
    }
}

} // verus!
