//! Volumes of pods, as they are found on disk.

use vstd::prelude::*;
use crate::cluster::docker::queries::{info_views, source_views, ContainerMountInfo};
use crate::number::{
    decimal, digit, law_decimal_reads_back, lemma_decimal, number_upto, parse_u64,
};
use crate::order::{ranked, sort_texts};
use crate::text::{
    add_once, begins, chars_of, contains, find_char, has_sub, index_of, lemma_index_of,
    lemma_index_of_is, lemma_pieces_nonempty, lines, no_texts, pieces, same, split, split_lines, starts_with,
    string_of_range, strip_end, stripped_end, trim, trimmed, views, white, with_text,
};

verus! {

/// What the names of the directories of volumes begin with.
pub const PVC_DIR_PREFIX: &'static str = "pvc-";

/// A volume as it is found on disk: its size, and the pods that use it.
#[derive(Debug)]
pub struct VolumeStats {
    pub pvc_name: String,
    pub namespace: String,
    pub used_bytes: u64,
    pub pods: Vec<String>,
}

/// The script that lists the directories of volumes with their sizes.
pub fn list_command(storage_path: &str) -> (r: String)
    ensures
        r@ == "cd "@ + storage_path@ + " 2>/dev/null && for d in "@ + PVC_DIR_PREFIX@
            + "*/; do [ -d \"$d\" ] && du -sb \"$d\" 2>/dev/null; done"@,
{
    let mut s = "cd ".to_owned();
    s.append(storage_path);
    s.append(" 2>/dev/null && for d in ");
    s.append(PVC_DIR_PREFIX);
    s.append("*/; do [ -d \"$d\" ] && du -sb \"$d\" 2>/dev/null; done");
    s
}

// ---------------------------------------------------------------------------
// Names of directories
// ---------------------------------------------------------------------------

/// Namespace and name of a claim in the name of its directory,
/// `pvc-<uuid>_<namespace>_<name>`. The name may hold underscores.
pub open spec fn claim_in(dir: Seq<char>) -> Option<(Seq<char>, Seq<char>)> {
    let a = index_of(dir, '_');
    let rest = dir.skip(a + 1);
    let b = index_of(rest, '_');
    if a < dir.len() && b < rest.len() && b > 0 && b + 1 < rest.len() {
        Some((rest.take(b), rest.skip(b + 1)))
    } else {
        None
    }
}

/// The name of a volume in the name of its directory: what stands before the first underscore.
pub open spec fn volume_in(dir: Seq<char>) -> Seq<char> {
    pieces(dir, '_')[0]
}

/// Namespace and name of a claim in the name of its directory.
pub fn parse_pvc_dir_name(dir_name: &str) -> (r: Option<(String, String)>)
    ensures
        match r {
            Some(c) => claim_in(dir_name@) == Some((c.0@, c.1@)),
            None => claim_in(dir_name@) is None,
        },
{
    let v = chars_of(dir_name);
    proof {
        lemma_index_of(v@, '_');
    }
    let a: usize = find_char(&v, '_');
    let n: usize = v.len();
    if a >= n {
        return None;
    }
    let rest = chars_of(string_of_range(&v, a + 1, n).as_str());
    assert(rest@ =~= dir_name@.skip(a + 1));
    proof {
        lemma_index_of(rest@, '_');
    }
    let b: usize = find_char(&rest, '_');
    let m: usize = rest.len();
    if b >= m || b == 0 || b + 1 >= m {
        return None;
    }
    let namespace = string_of_range(&rest, 0, b);
    let name = string_of_range(&rest, b + 1, m);
    assert(namespace@ =~= rest@.take(b as int));
    assert(name@ =~= rest@.skip(b + 1));
    Some((namespace, name))
}

fn volume_of(dir: &str) -> (r: String)
    ensures
        r@ == volume_in(dir@),
{
    let parts = split(dir, '_');
    proof {
        lemma_pieces_nonempty(dir@, '_');
    }
    assert(views(parts@).len() == parts@.len());
    assert(views(parts@)[0] == parts@[0]@);
    parts[0].clone()
}

// ---------------------------------------------------------------------------
// The listing
// ---------------------------------------------------------------------------

/// Directory and size in a line of the listing.
pub open spec fn entry_in(line: Seq<char>) -> Option<(Seq<char>, u64)> {
    let t = index_of(line, '\t');
    if t < line.len() {
        let dir = stripped_end(trimmed(line.skip(t + 1)), '/');
        match number_upto(trimmed(line.take(t)), u64::MAX as nat) {
            Some(n) => if begins(dir, PVC_DIR_PREFIX@) {
                Some((dir, n as u64))
            } else {
                None
            },
            None => None,
        }
    } else {
        None
    }
}

/// Directories and sizes in lines of the listing.
pub open spec fn entries_in(ls: Seq<Seq<char>>) -> Seq<(Seq<char>, u64)>
    decreases ls.len(),
{
    if ls.len() == 0 {
        Seq::empty()
    } else {
        match entry_in(ls.last()) {
            Some(e) => entries_in(ls.drop_last()).push(e),
            None => entries_in(ls.drop_last()),
        }
    }
}

/// Directories and sizes, as values.
pub open spec fn entry_views(v: Seq<(String, u64)>) -> Seq<(Seq<char>, u64)> {
    Seq::new(v.len(), |i: int| (v[i].0@, v[i].1))
}

fn entry_of(line: &str) -> (r: Option<(String, u64)>)
    ensures
        match r {
            Some(e) => entry_in(line@) == Some((e.0@, e.1)),
            None => entry_in(line@) is None,
        },
{
    let v = chars_of(line);
    proof {
        lemma_index_of(v@, '\t');
    }
    let t: usize = find_char(&v, '\t');
    let n: usize = v.len();
    if t >= n {
        return None;
    }
    let head = string_of_range(&v, 0, t);
    let tail = string_of_range(&v, t + 1, n);
    assert(head@ =~= line@.take(t as int));
    assert(tail@ =~= line@.skip(t + 1));
    match parse_u64(trim(head.as_str()).as_str()) {
        Some(size) => {
            let dir = strip_end(trim(tail.as_str()).as_str(), '/');
            if starts_with(dir.as_str(), PVC_DIR_PREFIX) {
                Some((dir, size))
            } else {
                None
            }
        },
        None => None,
    }
}

/// Directories and sizes in a listing.
pub fn parse_listing(output: &str) -> (r: Vec<(String, u64)>)
    ensures
        entry_views(r@) == entries_in(lines(output@)),
{
    let ls = split_lines(output);
    let ghost all = lines(output@);
    let mut out: Vec<(String, u64)> = Vec::new();
    let mut i: usize = 0;
    assert(all.take(0) =~= Seq::<Seq<char>>::empty());
    assert(entry_views(out@) =~= Seq::<(Seq<char>, u64)>::empty());
    while i < ls.len()
        invariant
            i <= ls@.len(),
            all == views(ls@),
            entry_views(out@) == entries_in(all.take(i as int)),
        decreases ls@.len() - i,
    {
        assert(all.take(i + 1).drop_last() =~= all.take(i as int));
        assert(all.take(i + 1).last() == ls@[i as int]@);
        if let Some(e) = entry_of(ls[i].as_str()) {
            let ghost before = entry_views(out@);
            let ghost row = (e.0@, e.1);
            out.push(e);
            assert(entry_views(out@) =~= before.push(row));
        }
        i = i + 1;
    }
    assert(all.take(i as int) =~= all);
    out
}

// ---------------------------------------------------------------------------
// Pods
// ---------------------------------------------------------------------------

/// The index of the first directory whose volume a mount comes from, or how many there are.
pub open spec fn mounted_volume(entries: Seq<(Seq<char>, u64)>, source: Seq<char>, from: int) -> int
    decreases entries.len() - from,
{
    if from < 0 || from >= entries.len() {
        entries.len() as int
    } else if has_sub(source, volume_in(entries[from].0)) {
        from
    } else {
        mounted_volume(entries, source, from + 1)
    }
}

/// The last index below `n` of a directory of a volume, or -1.
pub open spec fn last_of_volume(entries: Seq<(Seq<char>, u64)>, volume: Seq<char>, n: int) -> int
    decreases n,
{
    if n <= 0 || n > entries.len() {
        -1
    } else if volume_in(entries[n - 1].0) == volume {
        n - 1
    } else {
        last_of_volume(entries, volume, n - 1)
    }
}

/// The first index from `from` on of a directory with a name, or how many there are.
pub open spec fn first_named(entries: Seq<(Seq<char>, u64)>, name: Seq<char>, from: int) -> int
    decreases entries.len() - from,
{
    if from < 0 || from >= entries.len() {
        entries.len() as int
    } else if entries[from].0 == name {
        from
    } else {
        first_named(entries, name, from + 1)
    }
}

/// The directory that a mount comes from, or how many there are. Should a volume have several
/// directories, it is the last.
pub open spec fn mounted_dir(entries: Seq<(Seq<char>, u64)>, source: Seq<char>) -> int {
    let i = mounted_volume(entries, source, 0);
    if 0 <= i < entries.len() {
        let k = last_of_volume(entries, volume_in(entries[i].0), entries.len() as int);
        first_named(entries, entries[k].0, 0)
    } else {
        entries.len() as int
    }
}

/// Whether a mount comes from the directory `d`.
pub open spec fn comes_from(entries: Seq<(Seq<char>, u64)>, source: Seq<char>, d: int) -> bool {
    mounted_dir(entries, source) == d
}

/// The known pods and the pod of a container, once for each mount from the directory `d`.
pub open spec fn with_mounts(
    known: Seq<Seq<char>>,
    entries: Seq<(Seq<char>, u64)>,
    d: int,
    pod: Seq<char>,
    sources: Seq<Seq<char>>,
) -> Seq<Seq<char>>
    decreases sources.len(),
{
    if sources.len() == 0 {
        known
    } else {
        let before = with_mounts(known, entries, d, pod, sources.drop_last());
        if comes_from(entries, sources.last(), d) {
            with_text(before, pod)
        } else {
            before
        }
    }
}

/// The pods of containers with a mount from the directory `d`, each once.
pub open spec fn pods_using(
    entries: Seq<(Seq<char>, u64)>,
    d: int,
    containers: Seq<(Seq<char>, Seq<Seq<char>>)>,
) -> Seq<Seq<char>>
    decreases containers.len(),
{
    if containers.len() == 0 {
        Seq::empty()
    } else {
        with_mounts(
            pods_using(entries, d, containers.drop_last()),
            entries,
            d,
            containers.last().0,
            containers.last().1,
        )
    }
}

/// A volume, as a value: name, namespace, size and pods.
pub type VolumeView = (Seq<char>, Seq<char>, u64, Seq<Seq<char>>);

/// Volumes, as values.
pub open spec fn volume_views(v: Seq<VolumeStats>) -> Seq<VolumeView> {
    Seq::new(v.len(), |i: int| (v[i].pvc_name@, v[i].namespace@, v[i].used_bytes, views(v[i].pods@)))
}

/// The volumes in the first `n` directories of a listing, with the pods that use them, by name.
pub open spec fn volumes_upto(
    entries: Seq<(Seq<char>, u64)>,
    containers: Seq<(Seq<char>, Seq<Seq<char>>)>,
    n: int,
) -> Seq<VolumeView>
    decreases n,
{
    if n <= 0 || n > entries.len() {
        Seq::empty()
    } else {
        let before = volumes_upto(entries, containers, n - 1);
        let e = entries[n - 1];
        match claim_in(e.0) {
            Some(c) => before.push((c.1, c.0, e.1, ranked(pods_using(entries, n - 1, containers)))),
            None => before,
        }
    }
}

fn volume_of_mount(entries: &Vec<(String, u64)>, source: &str) -> (r: usize)
    ensures
        r == mounted_volume(entry_views(entries@), source@, 0),
        r <= entries@.len(),
{
    let ghost all = entry_views(entries@);
    let mut i: usize = 0;
    while i < entries.len()
        invariant
            i <= entries@.len(),
            all == entry_views(entries@),
            mounted_volume(all, source@, 0) == mounted_volume(all, source@, i as int),
        decreases entries@.len() - i,
    {
        assert(all[i as int] == (entries@[i as int].0@, entries@[i as int].1));
        let volume = volume_of(entries[i].0.as_str());
        if contains(source, volume.as_str()) {
            return i;
        }
        i = i + 1;
    }
    i
}

/// The directory that a mount comes from.
fn dir_of_mount(entries: &Vec<(String, u64)>, source: &str) -> (r: usize)
    ensures
        r == mounted_dir(entry_views(entries@), source@),
{
    let ghost all = entry_views(entries@);
    let first: usize = volume_of_mount(entries, source);
    let len: usize = entries.len();
    if first >= len {
        return len;
    }
    assert(all[first as int] == (entries@[first as int].0@, entries@[first as int].1));
    let volume = volume_of(entries[first].0.as_str());
    let mut n: usize = len;
    while n > first + 1
        invariant
            first < len,
            first == mounted_volume(all, source@, 0),
            first + 1 <= n <= len,
            len == entries@.len(),
            all == entry_views(entries@),
            volume@ == volume_in(all[first as int].0),
            last_of_volume(all, volume@, len as int) == last_of_volume(all, volume@, n as int),
        decreases n,
    {
        assert(all[n - 1] == (entries@[n - 1].0@, entries@[n - 1].1));
        let v = volume_of(entries[n - 1].0.as_str());
        if same(v.as_str(), volume.as_str()) {
            let k: usize = n - 1;
            return named_first(entries, k);
        }
        n = n - 1;
    }
    named_first(entries, first)
}

fn named_first(entries: &Vec<(String, u64)>, k: usize) -> (r: usize)
    requires
        k < entries@.len(),
    ensures
        r == first_named(entry_views(entries@), entry_views(entries@)[k as int].0, 0),
{
    let ghost all = entry_views(entries@);
    let ghost name = all[k as int].0;
    let mut i: usize = 0;
    while i < entries.len()
        invariant
            k < entries@.len(),
            i <= entries@.len(),
            all == entry_views(entries@),
            name == all[k as int].0,
            first_named(all, name, 0) == first_named(all, name, i as int),
        decreases entries@.len() - i,
    {
        assert(all[i as int] == (entries@[i as int].0@, entries@[i as int].1));
        assert(all[k as int] == (entries@[k as int].0@, entries@[k as int].1));
        if same(entries[i].0.as_str(), entries[k].0.as_str()) {
            return i;
        }
        i = i + 1;
    }
    i
}

fn add_mounts(
    known: &mut Vec<String>,
    entries: &Vec<(String, u64)>,
    d: usize,
    c: &ContainerMountInfo,
)
    ensures
        views(final(known)@) == with_mounts(
            views(old(known)@),
            entry_views(entries@),
            d as int,
            c.pod_name@,
            source_views(c.mounts@),
        ),
{
    let ghost start = views(known@);
    let ghost all = source_views(c.mounts@);
    let mut i: usize = 0;
    assert(all.take(0) =~= Seq::<Seq<char>>::empty());
    while i < c.mounts.len()
        invariant
            i <= c.mounts@.len(),
            all == source_views(c.mounts@),
            views(known@) == with_mounts(
                start,
                entry_views(entries@),
                d as int,
                c.pod_name@,
                all.take(i as int),
            ),
        decreases c.mounts@.len() - i,
    {
        assert(all.take(i + 1).drop_last() =~= all.take(i as int));
        assert(all.take(i + 1).last() == c.mounts@[i as int].source@);
        if dir_of_mount(entries, c.mounts[i].source.as_str()) == d {
            add_once(known, c.pod_name.as_str());
        }
        i = i + 1;
    }
    assert(all.take(i as int) =~= all);
}

fn pods_of(entries: &Vec<(String, u64)>, d: usize, cs: &Vec<ContainerMountInfo>) -> (r: Vec<String>)
    ensures
        views(r@) == pods_using(entry_views(entries@), d as int, info_views(cs@)),
{
    let mut out = no_texts();
    let ghost all = info_views(cs@);
    let mut i: usize = 0;
    assert(all.take(0) =~= Seq::<(Seq<char>, Seq<Seq<char>>)>::empty());
    while i < cs.len()
        invariant
            i <= cs@.len(),
            all == info_views(cs@),
            views(out@) == pods_using(entry_views(entries@), d as int, all.take(i as int)),
        decreases cs@.len() - i,
    {
        assert(all.take(i + 1).drop_last() =~= all.take(i as int));
        assert(all.take(i + 1).last() == (
            cs@[i as int].pod_name@,
            source_views(cs@[i as int].mounts@),
        ));
        add_mounts(&mut out, entries, d, &cs[i]);
        i = i + 1;
    }
    assert(all.take(i as int) =~= all);
    out
}

/// The volumes in a listing, with the pods that use them: a pod uses a volume where the source of
/// one of its mounts holds the volume's name.
pub fn get_volume_stats(output: &str, containers: &Vec<ContainerMountInfo>) -> (r: Vec<VolumeStats>)
    ensures
        ({
            let entries = entries_in(lines(output@));
            volume_views(r@) == volumes_upto(
                entries,
                info_views(containers@),
                entries.len() as int,
            )
        }),
{
    let entries = parse_listing(output);
    let ghost all = entry_views(entries@);
    let ghost infos = info_views(containers@);
    let mut out: Vec<VolumeStats> = Vec::new();
    let mut i: usize = 0;
    assert(volume_views(out@) =~= Seq::<VolumeView>::empty());
    while i < entries.len()
        invariant
            i <= entries@.len(),
            all == entry_views(entries@),
            infos == info_views(containers@),
            volume_views(out@) == volumes_upto(all, infos, i as int),
        decreases entries@.len() - i,
    {
        assert(all[i as int] == (entries@[i as int].0@, entries@[i as int].1));
        if let Some((namespace, pvc_name)) = parse_pvc_dir_name(entries[i].0.as_str()) {
            let ghost before = volume_views(out@);
            let pods = sort_texts(pods_of(&entries, i, containers));
            let v = VolumeStats { pvc_name, namespace, used_bytes: entries[i].1, pods };
            let ghost row = (v.pvc_name@, v.namespace@, v.used_bytes, views(v.pods@));
            out.push(v);
            assert(volume_views(out@) =~= before.push(row));
        }
        i = i + 1;
    }
    out
}

// ---------------------------------------------------------------------------
// Laws
// ---------------------------------------------------------------------------

/// A claim is read back from the name of its directory, whatever its own name holds.
pub proof fn law_claim_reads_back(volume: Seq<char>, namespace: Seq<char>, name: Seq<char>)
    requires
        !volume.contains('_'),
        !namespace.contains('_'),
        namespace.len() > 0,
        name.len() > 0,
    ensures
        claim_in(volume.push('_') + namespace.push('_') + name) == Some((namespace, name)),
{
    let dir = volume.push('_') + namespace.push('_') + name;
    crate::text::lemma_index_of_is(dir, '_', volume.len() as int);
    let a = volume.len() as int;
    assert(forall|j: int| 0 <= j < a ==> dir[j] == volume[j]);
    assert(dir[a] == '_');
    let rest = dir.skip(a + 1);
    assert(rest =~= namespace.push('_') + name);
    let b = namespace.len() as int;
    assert(forall|j: int| 0 <= j < b ==> rest[j] == namespace[j]);
    assert(rest[b] == '_');
    crate::text::lemma_index_of_is(rest, '_', b);
    assert(rest.take(b) =~= namespace);
    assert(rest.skip(b + 1) =~= name);
}

proof fn lemma_plain_is_trimmed(s: Seq<char>)
    requires
        s.len() > 0,
        !white(s[0]),
        !white(s.last()),
    ensures
        trimmed(s) == s,
{
}

/// A line of the listing is read back: the size, a tab, and the directory of a volume with a slash
/// behind it.
pub proof fn law_listed_sizes_read_back(n: u64, dir: Seq<char>)
    requires
        begins(dir, PVC_DIR_PREFIX@),
        !white(dir.last()),
        dir.last() != '/',
    ensures
        entry_in(decimal(n as nat).push('\t') + dir.push('/')) == Some((dir, n)),
{
    reveal_strlit("pvc-");
    let d = decimal(n as nat);
    let line = d.push('\t') + dir.push('/');
    lemma_decimal(n as nat);
    assert(dir.subrange(0, 4) == PVC_DIR_PREFIX@);
    assert(dir[0] == PVC_DIR_PREFIX@[0]);
    assert(!white(dir[0]));
    assert forall|j: int| 0 <= j < d.len() implies line[j] != '\t' by {
        assert(digit(d[j]));
    }
    lemma_index_of_is(line, '\t', d.len() as int);
    assert(line.skip((d.len() + 1) as int) =~= dir.push('/'));
    assert(line.take(d.len() as int) =~= d);
    assert(digit(d[0]) && digit(d.last()));
    lemma_plain_is_trimmed(d);
    assert(dir.push('/')[0] == dir[0]);
    lemma_plain_is_trimmed(dir.push('/'));
    assert(dir.push('/').drop_last() =~= dir);
    assert(stripped_end(dir, '/') == dir);
    assert(stripped_end(dir.push('/'), '/') == dir);
    law_decimal_reads_back(n as nat, u64::MAX as nat);
}

/// The directories of a listing are those that its lines give, and no others.
pub proof fn law_entries_are_those_of_lines(ls: Seq<Seq<char>>, e: (Seq<char>, u64))
    ensures
        entries_in(ls).contains(e) <==> exists|i: int|
            0 <= i < ls.len() && entry_in(#[trigger] ls[i]) == Some(e),
    decreases ls.len(),
{
    if ls.len() > 0 {
        let d = ls.drop_last();
        let a = entries_in(d);
        let b = entries_in(ls);
        law_entries_are_those_of_lines(d, e);
        assert(ls[ls.len() - 1] == ls.last());
        if b.contains(e) {
            let k = choose|k: int| 0 <= k < b.len() && b[k] == e;
            if k < a.len() {
                assert(a[k] == e);
                let i = choose|i: int| 0 <= i < d.len() && entry_in(#[trigger] d[i]) == Some(e);
                assert(ls[i] == d[i]);
            } else {
                assert(entry_in(ls[ls.len() - 1]) == Some(e));
            }
        }
        if exists|i: int| 0 <= i < ls.len() && entry_in(#[trigger] ls[i]) == Some(e) {
            let i = choose|i: int| 0 <= i < ls.len() && entry_in(#[trigger] ls[i]) == Some(e);
            if i < d.len() {
                assert(d[i] == ls[i]);
                let k = choose|k: int| 0 <= k < a.len() && a[k] == e;
                assert(b[k] == e);
            } else {
                assert(b[a.len() as int] == e);
            }
        }
    }
}

proof fn lemma_mounted_volume(entries: Seq<(Seq<char>, u64)>, source: Seq<char>, from: int)
    requires
        0 <= from <= entries.len(),
    ensures
        from <= mounted_volume(entries, source, from) <= entries.len(),
        mounted_volume(entries, source, from) < entries.len() ==> has_sub(
            source,
            volume_in(entries[mounted_volume(entries, source, from)].0),
        ),
        forall|j: int|
            from <= j < mounted_volume(entries, source, from) ==> !has_sub(
                source,
                volume_in((#[trigger] entries[j]).0),
            ),
    decreases entries.len() - from,
{
    if from < entries.len() && !has_sub(source, volume_in(entries[from].0)) {
        lemma_mounted_volume(entries, source, from + 1);
    }
}

proof fn lemma_last_of_volume(entries: Seq<(Seq<char>, u64)>, volume: Seq<char>, n: int, i: int)
    requires
        0 <= i < n <= entries.len(),
        volume_in(entries[i].0) == volume,
    ensures
        i <= last_of_volume(entries, volume, n) < n,
        volume_in(entries[last_of_volume(entries, volume, n)].0) == volume,
    decreases n,
{
    if volume_in(entries[n - 1].0) != volume {
        lemma_last_of_volume(entries, volume, n - 1, i);
    }
}

proof fn lemma_first_named(entries: Seq<(Seq<char>, u64)>, from: int, k: int)
    requires
        0 <= from <= k < entries.len(),
    ensures
        from <= first_named(entries, entries[k].0, from) <= k,
        entries[first_named(entries, entries[k].0, from)].0 == entries[k].0,
    decreases k - from,
{
    if entries[from].0 != entries[k].0 {
        lemma_first_named(entries, from + 1, k);
    }
}

/// A mount comes from the directory of a volume that its source names, and from none where it names
/// none of them.
pub proof fn law_mounts_name_their_volumes(entries: Seq<(Seq<char>, u64)>, source: Seq<char>)
    ensures
        ({
            let d = mounted_dir(entries, source);
            &&& 0 <= d <= entries.len()
            &&& d < entries.len() ==> has_sub(source, volume_in(entries[d].0))
            &&& d == entries.len() <==> forall|j: int|
                0 <= j < entries.len() ==> !has_sub(source, volume_in((#[trigger] entries[j]).0))
        }),
{
    lemma_mounted_volume(entries, source, 0);
    let i = mounted_volume(entries, source, 0);
    if i < entries.len() {
        let n = entries.len() as int;
        lemma_last_of_volume(entries, volume_in(entries[i].0), n, i);
        let k = last_of_volume(entries, volume_in(entries[i].0), n);
        lemma_first_named(entries, 0, k);
    }
}

proof fn lemma_with_mounts(
    known: Seq<Seq<char>>,
    entries: Seq<(Seq<char>, u64)>,
    d: int,
    pod: Seq<char>,
    sources: Seq<Seq<char>>,
    x: Seq<char>,
)
    ensures
        with_mounts(known, entries, d, pod, sources).contains(x) <==> known.contains(x) || (x == pod
            && exists|i: int|
            0 <= i < sources.len() && mounted_dir(entries, #[trigger] sources[i]) == d),
        known.no_duplicates() ==> with_mounts(known, entries, d, pod, sources).no_duplicates(),
    decreases sources.len(),
{
    if sources.len() > 0 {
        let e = sources.drop_last();
        let a = with_mounts(known, entries, d, pod, e);
        lemma_with_mounts(known, entries, d, pod, e, x);
        assert(sources[sources.len() - 1] == sources.last());
        assert(a.push(pod)[a.len() as int] == pod);
        if a.contains(x) {
            let i = choose|i: int| 0 <= i < a.len() && a[i] == x;
            assert(a.push(pod)[i] == x);
        }
        if a.push(pod).contains(x) && x != pod {
            let i = choose|i: int| 0 <= i < a.push(pod).len() && a.push(pod)[i] == x;
            assert(a[i] == x);
        }
        if exists|i: int| 0 <= i < e.len() && mounted_dir(entries, #[trigger] e[i]) == d {
            let i = choose|i: int| 0 <= i < e.len() && mounted_dir(entries, #[trigger] e[i]) == d;
            assert(sources[i] == e[i]);
        }
        if exists|i: int|
            0 <= i < sources.len() && mounted_dir(entries, #[trigger] sources[i]) == d {
            let i = choose|i: int|
                0 <= i < sources.len() && mounted_dir(entries, #[trigger] sources[i]) == d;
            if i < e.len() {
                assert(e[i] == sources[i]);
            }
        }
    }
}

/// The pods that use a volume are those of a container with a mount from its directory, each once.
pub proof fn law_users_mount_the_volume(
    entries: Seq<(Seq<char>, u64)>,
    d: int,
    cs: Seq<(Seq<char>, Seq<Seq<char>>)>,
    x: Seq<char>,
)
    ensures
        pods_using(entries, d, cs).contains(x) <==> exists|i: int, j: int|
            0 <= i < cs.len() && 0 <= j < cs[i].1.len() && cs[i].0 == x && mounted_dir(
                entries,
                #[trigger] cs[i].1[j],
            ) == d,
        pods_using(entries, d, cs).no_duplicates(),
    decreases cs.len(),
{
    if cs.len() > 0 {
        let e = cs.drop_last();
        let c = cs.last();
        law_users_mount_the_volume(entries, d, e, x);
        lemma_with_mounts(pods_using(entries, d, e), entries, d, c.0, c.1, x);
        assert(cs[cs.len() - 1] == c);
        if pods_using(entries, d, e).contains(x) {
            let (i, j) = choose|i: int, j: int|
                0 <= i < e.len() && 0 <= j < e[i].1.len() && e[i].0 == x && mounted_dir(
                    entries,
                    #[trigger] e[i].1[j],
                ) == d;
            assert(cs[i] == e[i]);
            assert(mounted_dir(entries, cs[i].1[j]) == d);
        }
        if x == c.0 && (exists|j: int|
            0 <= j < c.1.len() && mounted_dir(entries, #[trigger] c.1[j]) == d) {
            let j = choose|j: int| 0 <= j < c.1.len() && mounted_dir(entries, #[trigger] c.1[j]) == d;
            assert(mounted_dir(entries, cs[cs.len() - 1].1[j]) == d);
        }
        if exists|i: int, j: int|
            0 <= i < cs.len() && 0 <= j < cs[i].1.len() && cs[i].0 == x && mounted_dir(
                entries,
                #[trigger] cs[i].1[j],
            ) == d {
            let (i, j) = choose|i: int, j: int|
                0 <= i < cs.len() && 0 <= j < cs[i].1.len() && cs[i].0 == x && mounted_dir(
                    entries,
                    #[trigger] cs[i].1[j],
                ) == d;
            if i < e.len() {
                assert(e[i] == cs[i]);
                assert(mounted_dir(entries, e[i].1[j]) == d);
            } else {
                assert(mounted_dir(entries, c.1[j]) == d);
            }
        }
    }
}

/// Every directory that names a claim is listed, under the claim's name and namespace and with its size.
pub proof fn law_every_claim_is_listed(
    entries: Seq<(Seq<char>, u64)>,
    containers: Seq<(Seq<char>, Seq<Seq<char>>)>,
    n: int,
    i: int,
)
    requires
        0 <= i < n <= entries.len(),
    ensures
        claim_in(entries[i].0) matches Some(c) ==> exists|k: int|
            0 <= k < volumes_upto(entries, containers, n).len() && {
                let v = #[trigger] volumes_upto(entries, containers, n)[k];
                v.0 == c.1 && v.1 == c.0 && v.2 == entries[i].1
            },
        volumes_upto(entries, containers, n).len() <= n,
    decreases n,
{
    let a = volumes_upto(entries, containers, n - 1);
    let b = volumes_upto(entries, containers, n);
    if i < n - 1 {
        law_every_claim_is_listed(entries, containers, n - 1, i);
        if let Some(c) = claim_in(entries[i].0) {
            let k = choose|k: int|
                0 <= k < a.len() && {
                    let v = #[trigger] a[k];
                    v.0 == c.1 && v.1 == c.0 && v.2 == entries[i].1
                };
            assert(b[k] == a[k]);
        }
    } else {
        if n > 1 {
            law_every_claim_is_listed(entries, containers, n - 1, 0);
        }
        if let Some(c) = claim_in(entries[i].0) {
            let v = b[a.len() as int];
            assert(v.0 == c.1 && v.1 == c.0 && v.2 == entries[i].1);
        }
    }
}

} // verus!
