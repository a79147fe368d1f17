//! The agent: a small program in the cluster's container that reports what each container uses.

use vstd::prelude::*;
use crate::number::{
    decimal, digit, i64_text, law_decimal_reads_back, law_signed_decimal_reads_back, lemma_decimal,
    number_upto, parse_i64, parse_u64, signed_decimal, signed_number, u64_text,
};
use crate::text::{
    begins, chars_of, contains, find_from, has_sub, join, joined, lemma_has_in, lemma_has_sub,
    lemma_part_of_joined, lemma_pieces_head, lemma_pieces_nonempty, lemma_sub_index_from, lemma_words_concat,
    lemma_words_single, lines, no_texts, occurs_at, opt_view, pieces, push_text, same, split,
    split_lines, split_words, starts_with, string_of_range, strip_start, stripped_start, sub_index,
    sub_index_from, trim, trimmed, views, white, words,
};
use crate::textmap::{key_index, law_put_then_lookup, lemma_key_index, lookup, put};

verus! {

/// A quota or a limit that there is not.
pub const NO_LIMIT: i64 = -1;

/// What a container uses: processor time in microseconds, its quota and period, and memory in
/// bytes. A quota or a limit of -1 is none.
#[derive(Debug, Clone, Copy, PartialEq, Eq, Structural)]
pub struct CgroupStats {
    pub usage_usec: u64,
    pub cpu_quota: i64,
    pub cpu_period: u64,
    pub mem_current: u64,
    pub mem_max: i64,
}

// ---------------------------------------------------------------------------
// Control groups
// ---------------------------------------------------------------------------

/// The number in a file that holds one; 0 where there is none.
pub open spec fn number_in(content: Option<Seq<char>>) -> u64 {
    match content {
        Some(s) => match number_upto(trimmed(s), u64::MAX as nat) {
            Some(n) => n as u64,
            None => 0,
        },
        None => 0,
    }
}

/// The number in a file that holds one which may be negative; `default` where there is none.
pub open spec fn signed_in(content: Option<Seq<char>>, default: i64) -> i64 {
    match content {
        Some(s) => match signed_number(trimmed(s)) {
            Some(n) => n as i64,
            None => default,
        },
        None => default,
    }
}

/// The first line that begins with `head`.
pub open spec fn first_line(ls: Seq<Seq<char>>, head: Seq<char>) -> Option<Seq<char>>
    decreases ls.len(),
{
    if ls.len() == 0 {
        None
    } else if begins(ls[0], head) {
        Some(ls[0])
    } else {
        first_line(ls.skip(1), head)
    }
}

/// The processor time in the file `cpu.stat`.
pub open spec fn usage_in(content: Seq<char>) -> u64 {
    match first_line(lines(content), "usage_usec"@) {
        Some(l) => if words(l).len() >= 2 {
            match number_upto(words(l)[1], u64::MAX as nat) {
                Some(n) => n as u64,
                None => 0,
            }
        } else {
            0
        },
        None => 0,
    }
}

/// Quota and period in the file `cpu.max`: a quota of -1 is none.
pub open spec fn quota_in(content: Seq<char>) -> (i64, u64) {
    let w = words(content);
    if w.len() >= 2 {
        (
            if w[0] == "max"@ {
                NO_LIMIT
            } else {
                match signed_number(w[0]) {
                    Some(n) => n as i64,
                    None => NO_LIMIT,
                }
            },
            match number_upto(w[1], u64::MAX as nat) {
                Some(n) => n as u64,
                None => 100000,
            },
        )
    } else {
        (NO_LIMIT, 100000)
    }
}

/// The limit in the file `memory.max`: -1 is none.
pub open spec fn limit_in(content: Seq<char>) -> i64 {
    if trimmed(content) == "max"@ {
        NO_LIMIT
    } else {
        match signed_number(trimmed(content)) {
            Some(n) => n as i64,
            None => NO_LIMIT,
        }
    }
}

/// The text of an optional file; an absent one is empty.
pub open spec fn text_of(content: Option<String>) -> Seq<char> {
    match content {
        Some(s) => s@,
        None => Seq::empty(),
    }
}

fn number_of(content: &Option<String>) -> (r: u64)
    ensures
        r == number_in(opt_view(*content)),
{
    match content {
        Some(s) => match parse_u64(trim(s.as_str()).as_str()) {
            Some(n) => n,
            None => 0,
        },
        None => 0,
    }
}

fn signed_of(content: &Option<String>, default: i64) -> (r: i64)
    ensures
        r == signed_in(opt_view(*content), default),
{
    match content {
        Some(s) => match parse_i64(trim(s.as_str()).as_str()) {
            Some(n) => n,
            None => default,
        },
        None => default,
    }
}

/// The processor time in the file `cpu.stat`.
pub fn usage_of(content: &str) -> (r: u64)
    ensures
        r == usage_in(content@),
{
    let ls = split_lines(content);
    let ghost all = lines(content@);
    let mut i: usize = 0;
    assert(all.skip(0) =~= all);
    while i < ls.len()
        invariant
            i <= ls@.len(),
            all == views(ls@),
            all == lines(content@),
            first_line(all, "usage_usec"@) == first_line(all.skip(i as int), "usage_usec"@),
        decreases ls@.len() - i,
    {
        assert(all.skip(i as int)[0] == ls@[i as int]@);
        assert(all.skip(i as int).skip(1) =~= all.skip(i + 1));
        if starts_with(ls[i].as_str(), "usage_usec") {
            let w = split_words(ls[i].as_str());
            assert(views(w@).len() == w@.len());
            if w.len() >= 2 {
                assert(views(w@)[1] == w@[1]@);
                return match parse_u64(w[1].as_str()) {
                    Some(n) => n,
                    None => 0,
                };
            }
            return 0;
        }
        i = i + 1;
    }
    assert(all.skip(i as int).len() == 0);
    0
}

/// Quota and period in the file `cpu.max`.
pub fn quota_of(content: &str) -> (r: (i64, u64))
    ensures
        r == quota_in(content@),
{
    let w = split_words(content);
    assert(views(w@).len() == w@.len());
    if w.len() >= 2 {
        assert(views(w@)[0] == w@[0]@);
        assert(views(w@)[1] == w@[1]@);
        let period: u64 = match parse_u64(w[1].as_str()) {
            Some(n) => n,
            None => 100000,
        };
        if same(w[0].as_str(), "max") {
            (NO_LIMIT, period)
        } else {
            (
                match parse_i64(w[0].as_str()) {
                    Some(n) => n,
                    None => NO_LIMIT,
                },
                period,
            )
        }
    } else {
        (NO_LIMIT, 100000)
    }
}

fn limit_of(content: &str) -> (r: i64)
    ensures
        r == limit_in(content@),
{
    let t = trim(content);
    if same(t.as_str(), "max") {
        NO_LIMIT
    } else {
        match parse_i64(t.as_str()) {
            Some(n) => n,
            None => NO_LIMIT,
        }
    }
}

fn or_empty(content: &Option<String>) -> (r: String)
    ensures
        r@ == text_of(*content),
{
    match content {
        Some(s) => s.clone(),
        None => String::new(),
    }
}

/// What a container uses, from the files of its control group in the second version. Only
/// `cpu.stat` must be there.
pub open spec fn v2_stats(
    cpu_stat: Option<String>,
    cpu_max: Option<String>,
    memory_current: Option<String>,
    memory_max: Option<String>,
) -> Option<CgroupStats> {
    match cpu_stat {
        None => None,
        Some(s) => Some(
            CgroupStats {
                usage_usec: usage_in(s@),
                cpu_quota: quota_in(text_of(cpu_max)).0,
                cpu_period: quota_in(text_of(cpu_max)).1,
                mem_current: number_in(opt_view(memory_current)),
                mem_max: limit_in(text_of(memory_max)),
            },
        ),
    }
}

/// What a container uses, from the files of its control group in the second version. Only
/// `cpu.stat` must be there.
pub fn read_cgroup_v2_files(
    cpu_stat: &Option<String>,
    cpu_max: &Option<String>,
    memory_current: &Option<String>,
    memory_max: &Option<String>,
) -> (r: Option<CgroupStats>)
    ensures
        r == v2_stats(*cpu_stat, *cpu_max, *memory_current, *memory_max),
{
    match cpu_stat {
        None => None,
        Some(s) => {
            let (cpu_quota, cpu_period) = quota_of(or_empty(cpu_max).as_str());
            Some(
                CgroupStats {
                    usage_usec: usage_of(s.as_str()),
                    cpu_quota,
                    cpu_period,
                    mem_current: number_of(memory_current),
                    mem_max: limit_of(or_empty(memory_max).as_str()),
                },
            )
        },
    }
}

/// What a number is for a limit of which this is the file's content: one above `2^60` is none.
pub open spec fn old_limit(content: Option<Seq<char>>) -> i64 {
    match content {
        Some(s) => match number_upto(trimmed(s), u64::MAX as nat) {
            Some(n) => if n > 0x1000_0000_0000_0000 {
                NO_LIMIT
            } else {
                n as i64
            },
            None => NO_LIMIT,
        },
        None => NO_LIMIT,
    }
}

/// The period in a file of the first version.
pub open spec fn old_period(content: Option<Seq<char>>) -> u64 {
    match content {
        Some(s) => match number_upto(trimmed(s), u64::MAX as nat) {
            Some(n) => n as u64,
            None => 100000,
        },
        None => 100000,
    }
}

/// What a container uses, from the files of its control groups in the first version. The memory is
/// known only where its control group is.
pub open spec fn v1_stats(
    usage: Option<String>,
    quota: Option<String>,
    period: Option<String>,
    memory: Option<(Option<String>, Option<String>)>,
) -> CgroupStats {
    CgroupStats {
        usage_usec: number_in(opt_view(usage)) / 1000,
        cpu_quota: signed_in(opt_view(quota), NO_LIMIT),
        cpu_period: old_period(opt_view(period)),
        mem_current: match memory {
            Some((current, _)) => number_in(opt_view(current)),
            None => 0,
        },
        mem_max: match memory {
            Some((_, max)) => old_limit(opt_view(max)),
            None => NO_LIMIT,
        },
    }
}

/// What a container uses, from the files of its control groups in the first version. The memory is
/// known only where its control group is.
pub fn read_cgroup_v1_files(
    usage: &Option<String>,
    quota: &Option<String>,
    period: &Option<String>,
    memory: &Option<(Option<String>, Option<String>)>,
) -> (r: CgroupStats)
    ensures
        r == v1_stats(*usage, *quota, *period, *memory),
{
    let (mem_current, mem_max) = match memory {
        Some((current, max)) => {
            let m: i64 = match max {
                Some(s) => match parse_u64(trim(s.as_str()).as_str()) {
                    Some(n) => if n > 0x1000_0000_0000_0000 {
                        NO_LIMIT
                    } else {
                        n as i64
                    },
                    None => NO_LIMIT,
                },
                None => NO_LIMIT,
            };
            (number_of(current), m)
        },
        None => (0, NO_LIMIT),
    };
    let cpu_period: u64 = match period {
        Some(s) => match parse_u64(trim(s.as_str()).as_str()) {
            Some(n) => n,
            None => 100000,
        },
        None => 100000,
    };
    CgroupStats {
        usage_usec: number_of(usage) / 1000,
        cpu_quota: signed_of(quota, NO_LIMIT),
        cpu_period,
        mem_current,
        mem_max,
    }
}

/// What to do about a directory among control groups.
#[derive(Debug, Clone, Copy, PartialEq, Eq, Structural)]
pub enum DirKind {
    /// It holds others.
    Group,
    /// It is that of a container.
    Container,
    Neither,
}

/// Whether a directory of control groups holds others.
pub open spec fn is_group(name: Seq<char>, v2: bool) -> bool {
    name == "burstable"@ || name == "besteffort"@ || name == "guaranteed"@ || begins(name, "pod"@)
        || (!v2 && begins(name, "kubepods"@))
}

/// What to do about a directory with this name; a container's has a file with its processor time.
pub fn walk_cgroup_dir(name: &str, has_usage: bool, v2: bool) -> (r: DirKind)
    ensures
        r == if is_group(name@, v2) {
            DirKind::Group
        } else if has_usage {
            DirKind::Container
        } else {
            DirKind::Neither
        },
{
    if same(name, "burstable") || same(name, "besteffort") || same(name, "guaranteed")
        || starts_with(name, "pod") || (!v2 && starts_with(name, "kubepods")) {
        DirKind::Group
    } else if has_usage {
        DirKind::Container
    } else {
        DirKind::Neither
    }
}

/// Whether the second version is in use, given whether the file with its controllers is there.
pub fn is_cgroup_v2(controllers_there: bool) -> (r: bool)
    ensures
        r == controllers_there,
{
    controllers_there
}

/// Where to look for containers, given which directories are there.
pub fn collect_cgroups(v2: bool, unified: bool, combined: bool, plain: bool) -> (r: Option<
    &'static str,
>)
    ensures
        match r {
            Some(p) => if v2 {
                unified && p@ == "/sys/fs/cgroup/kubepods"@
            } else if combined {
                p@ == "/sys/fs/cgroup/cpu,cpuacct/kubepods"@
            } else {
                plain && p@ == "/sys/fs/cgroup/cpu/kubepods"@
            },
            None => if v2 {
                !unified
            } else {
                !combined && !plain
            },
        },
{
    if v2 {
        if unified {
            Some("/sys/fs/cgroup/kubepods")
        } else {
            None
        }
    } else if combined {
        Some("/sys/fs/cgroup/cpu,cpuacct/kubepods")
    } else if plain {
        Some("/sys/fs/cgroup/cpu/kubepods")
    } else {
        None
    }
}

/// The text with the first occurrence of `pat` replaced.
pub open spec fn replaced_once(s: Seq<char>, pat: Seq<char>, to: Seq<char>) -> Seq<char> {
    match sub_index(s, pat) {
        Some(i) => s.take(i) + to + s.skip(i + pat.len()),
        None => s,
    }
}

/// The control group for memory beside one for the processor, in the first version.
pub open spec fn memory_path(path: Seq<char>) -> Option<Seq<char>> {
    if has_sub(path, "/cpu,cpuacct/"@) {
        Some(replaced_once(path, "/cpu,cpuacct/"@, "/memory/"@))
    } else if has_sub(path, "/cpu/"@) {
        Some(replaced_once(path, "/cpu/"@, "/memory/"@))
    } else {
        None
    }
}

fn replace_once(s: &str, pat: &str, to: &str) -> (r: String)
    ensures
        r@ == replaced_once(s@, pat@, to@),
{
    let v = chars_of(s);
    let p = chars_of(pat);
    proof {
        lemma_sub_index_from(s@, pat@, 0);
    }
    match find_from(&v, &p, 0) {
        Some(i) => {
            let mut out = string_of_range(&v, 0, i);
            out.append(to);
            let n: usize = p.len();
            let end: usize = v.len();
            assert(i + n <= end);
            out.append(string_of_range(&v, i + n, end).as_str());
            assert(v@.subrange(0, i as int) =~= s@.take(i as int));
            assert(v@.subrange(i + n, v@.len() as int) =~= s@.skip(i + n));
            out
        },
        None => s.to_owned(),
    }
}

/// The control group for memory beside one for the processor, in the first version.
pub fn derive_v1_memory_path(path: &str) -> (r: Option<String>)
    ensures
        opt_view(r) == memory_path(path@),
{
    if contains(path, "/cpu,cpuacct/") {
        Some(replace_once(path, "/cpu,cpuacct/", "/memory/"))
    } else if contains(path, "/cpu/") {
        Some(replace_once(path, "/cpu/", "/memory/"))
    } else {
        None
    }
}

// ---------------------------------------------------------------------------
// Names of containers
// ---------------------------------------------------------------------------

/// What stands before the identifier of a container in Docker's answer.
pub const ID_MARK: &'static str = "\"Id\":\"";

/// What stands before the first name of a container.
pub const NAMES_MARK: &'static str = "\"Names\":[\"";

/// The request for the list of containers.
pub const LIST_REQUEST: &'static str =
    "GET /containers/json HTTP/1.0\r\nHost: localhost\r\n\r\n";

/// Identifiers of containers with their pods and namespaces.
pub type NameTable = Seq<(Seq<char>, (Seq<char>, Seq<char>))>;

/// A table of names, as a value.
pub open spec fn name_views(v: Seq<(String, (String, String))>) -> NameTable {
    Seq::new(v.len(), |i: int| (v[i].0@, (v[i].1.0@, v[i].1.1@)))
}

/// Pod and namespace in the name of a container, where it is one of a pod and no pause container.
pub open spec fn pod_in(name: Seq<char>) -> Option<(Seq<char>, Seq<char>)> {
    let p = pieces(name, '_');
    if begins(name, "k8s_"@) && !begins(name, "k8s_POD_"@) && p.len() >= 4 {
        Some((p[2], p[3]))
    } else {
        None
    }
}

/// The first name of the container whose identifier ends at `end`.
pub open spec fn name_after(body: Seq<char>, end: int) -> Option<Seq<char>> {
    let stop = match sub_index_from(body, ID_MARK@, end) {
        Some(q) => q,
        None => body.len() as int,
    };
    match sub_index(body.subrange(end, stop), NAMES_MARK@) {
        Some(o) => {
            let b = end + o + NAMES_MARK@.len();
            match sub_index_from(body, "\""@, b) {
                Some(f) => Some(stripped_start(body.subrange(b, f), '/')),
                None => None,
            }
        },
        None => None,
    }
}

/// Where the next identifier from `pos` on begins and ends.
pub open spec fn next_id(body: Seq<char>, pos: int) -> Option<(int, int)> {
    match sub_index_from(body, ID_MARK@, pos) {
        Some(p) => {
            let a = p + ID_MARK@.len();
            match sub_index_from(body, "\""@, a) {
                Some(e) => Some((a, e)),
                None => None,
            }
        },
        None => None,
    }
}

/// The table with the container whose identifier stands at these places.
pub open spec fn with_container(t: NameTable, body: Seq<char>, a: int, e: int) -> NameTable {
    match name_after(body, e) {
        Some(n) => match pod_in(n) {
            Some(p) => put(t, body.subrange(a, e), p),
            None => t,
        },
        None => t,
    }
}

/// The table with the containers in Docker's answer from `pos` on.
pub open spec fn names_from(body: Seq<char>, pos: int, t: NameTable) -> NameTable
    decreases body.len() - pos,
{
    if pos < 0 || pos >= body.len() {
        t
    } else {
        match next_id(body, pos) {
            Some((a, e)) => if pos <= e < body.len() {
                names_from(body, e + 1, with_container(t, body, a, e))
            } else {
                t
            },
            None => t,
        }
    }
}

/// The containers of pods in Docker's answer.
pub open spec fn container_names(body: Seq<char>) -> NameTable {
    names_from(body, 0, Seq::empty())
}

/// What stands behind the head of an answer.
pub open spec fn body_of(response: Seq<char>) -> Option<Seq<char>> {
    match sub_index(response, "\r\n\r\n"@) {
        Some(i) => Some(response.skip(i + 4)),
        None => None,
    }
}

fn pod_of(name: &str) -> (r: Option<(String, String)>)
    ensures
        match r {
            Some(p) => pod_in(name@) == Some((p.0@, p.1@)),
            None => pod_in(name@) is None,
        },
{
    if starts_with(name, "k8s_") && !starts_with(name, "k8s_POD_") {
        let parts = split(name, '_');
        assert(views(parts@).len() == parts@.len());
        if parts.len() >= 4 {
            assert(views(parts@)[2] == parts@[2]@);
            assert(views(parts@)[3] == parts@[3]@);
            return Some((parts[2].clone(), parts[3].clone()));
        }
    }
    None
}

fn put_name(t: &mut Vec<(String, (String, String))>, id: String, p: (String, String))
    ensures
        name_views(final(t)@) == put(name_views(old(t)@), id@, (p.0@, p.1@)),
{
    let ghost before = name_views(t@);
    let ghost row = (id@, (p.0@, p.1@));
    proof {
        lemma_key_index(before, id@);
    }
    let mut i: usize = 0;
    while i < t.len()
        invariant
            i <= t@.len(),
            before == name_views(t@),
            before == name_views(old(t)@),
            row == (id@, (p.0@, p.1@)),
            forall|j: int| 0 <= j < i ==> (#[trigger] before[j]).0 != id@,
            0 <= key_index(before, id@) <= before.len(),
            forall|j: int| 0 <= j < key_index(before, id@) ==> (#[trigger] before[j]).0 != id@,
            key_index(before, id@) < before.len() ==> before[key_index(before, id@)].0 == id@,
        decreases t@.len() - i,
    {
        assert(before[i as int].0 == t@[i as int].0@);
        if same(t[i].0.as_str(), id.as_str()) {
            t.set(i, (id, p));
            assert(name_views(t@) =~= before.update(i as int, row));
            return;
        }
        i = i + 1;
    }
    t.push((id, p));
    assert(name_views(t@) =~= before.push(row));
}

fn name_behind(v: &Vec<char>, end: usize) -> (r: Option<String>)
    requires
        end <= v@.len(),
    ensures
        opt_view(r) == name_after(v@, end as int),
{
    let id_mark = chars_of(ID_MARK);
    let names_mark = chars_of(NAMES_MARK);
    let quote = chars_of("\"");
    proof {
        lemma_sub_index_from(v@, ID_MARK@, end as int);
        reveal_strlit("\"");
    }
    let stop: usize = match find_from(v, &id_mark, end) {
        Some(q) => q,
        None => v.len(),
    };
    let region = chars_of(string_of_range(v, end, stop).as_str());
    proof {
        lemma_sub_index_from(region@, NAMES_MARK@, 0);
    }
    match find_from(&region, &names_mark, 0) {
        Some(o) => {
            let n: usize = names_mark.len();
            let b: usize = end + o + n;
            proof {
                lemma_sub_index_from(v@, "\""@, b as int);
            }
            match find_from(v, &quote, b) {
                Some(f) => Some(strip_start(string_of_range(v, b, f).as_str(), '/')),
                None => None,
            }
        },
        None => None,
    }
}

/// The containers of pods in Docker's answer: identifier, pod and namespace.
pub fn parse_container_list(body: &str) -> (r: Vec<(String, (String, String))>)
    ensures
        name_views(r@) == container_names(body@),
{
    let v = chars_of(body);
    let id_mark = chars_of(ID_MARK);
    let quote = chars_of("\"");
    proof {
        reveal_strlit("\"Id\":\"");
        reveal_strlit("\"");
    }
    let mut t: Vec<(String, (String, String))> = Vec::new();
    let mut pos: usize = 0;
    assert(name_views(t@) =~= Seq::<(Seq<char>, (Seq<char>, Seq<char>))>::empty());
    while pos < v.len()
        invariant
            v@ == body@,
            id_mark@ == ID_MARK@,
            quote@ == "\""@,
            ID_MARK@.len() == 6,
            "\""@.len() == 1,
            pos <= v@.len(),
            names_from(body@, pos as int, name_views(t@)) == container_names(body@),
        decreases v@.len() - pos,
    {
        proof {
            lemma_sub_index_from(v@, ID_MARK@, pos as int);
        }
        match find_from(&v, &id_mark, pos) {
            None => {
                return t;
            },
            Some(p) => {
                let n: usize = id_mark.len();
                let a: usize = p + n;
                proof {
                    lemma_sub_index_from(v@, "\""@, a as int);
                }
                match find_from(&v, &quote, a) {
                    None => {
                        return t;
                    },
                    Some(e) => {
                        let ghost before = name_views(t@);
                        if let Some(name) = name_behind(&v, e) {
                            if let Some(pod) = pod_of(name.as_str()) {
                                put_name(&mut t, string_of_range(&v, a, e), pod);
                            }
                        }
                        assert(name_views(t@) == with_container(
                            before,
                            body@,
                            a as int,
                            e as int,
                        ));
                        pos = e + 1;
                    },
                }
            },
        }
    }
    t
}

/// The containers of pods in Docker's whole answer; none where it has no body.
pub fn query_docker_socket(response: &str) -> (r: Vec<(String, (String, String))>)
    ensures
        name_views(r@) == match body_of(response@) {
            Some(b) => container_names(b),
            None => Seq::empty(),
        },
{
    let v = chars_of(response);
    let mark = chars_of("\r\n\r\n");
    proof {
        lemma_sub_index_from(v@, "\r\n\r\n"@, 0);
        reveal_strlit("\r\n\r\n");
    }
    match find_from(&v, &mark, 0) {
        Some(i) => {
            let end: usize = v.len();
            assert(i + 4 <= end);
            let body = string_of_range(&v, i + 4, end);
            assert(body@ =~= response@.skip(i + 4));
            parse_container_list(body.as_str())
        },
        None => {
            let r: Vec<(String, (String, String))> = Vec::new();
            assert(name_views(r@) =~= Seq::<(Seq<char>, (Seq<char>, Seq<char>))>::empty());
            r
        },
    }
}

/// Where to ask for containers: nothing more once there are some, or without another socket.
#[derive(Debug, Clone, Copy, PartialEq, Eq, Structural)]
pub enum SocketNext {
    Finished,
    /// Ask at the socket of the machine on which Docker runs.
    AskRaw,
}

/// What follows the first answer.
pub fn query_docker_containers(found: usize, raw_there: bool) -> (r: SocketNext)
    ensures
        r == if found == 0 && raw_there {
            SocketNext::AskRaw
        } else {
            SocketNext::Finished
        },
{
    if found == 0 && raw_there {
        SocketNext::AskRaw
    } else {
        SocketNext::Finished
    }
}

// ---------------------------------------------------------------------------
// The report
// ---------------------------------------------------------------------------

/// How a character stands in a JSON text.
pub open spec fn escape(c: char) -> Seq<char> {
    if c == '"' {
        "\\\""@
    } else if c == '\\' {
        "\\\\"@
    } else if c == '\n' {
        "\\n"@
    } else {
        seq![c]
    }
}

/// How a text stands in a JSON text.
pub open spec fn escaped(s: Seq<char>) -> Seq<char>
    decreases s.len(),
{
    if s.len() == 0 {
        Seq::empty()
    } else {
        escape(s[0]) + escaped(s.skip(1))
    }
}

/// What an escaped text stands for.
pub open spec fn unescaped(s: Seq<char>) -> Seq<char>
    decreases s.len(),
{
    if s.len() == 0 {
        Seq::empty()
    } else if s[0] == '\\' && s.len() >= 2 {
        seq![
            if s[1] == 'n' {
                '\n'
            } else {
                s[1]
            },
        ] + unescaped(s.skip(2))
    } else {
        seq![s[0]] + unescaped(s.skip(1))
    }
}

/// The report of one container.
pub open spec fn container_json(
    id: Seq<char>,
    pod: Seq<char>,
    ns: Seq<char>,
    c: CgroupStats,
) -> Seq<char> {
    "{\"id\":\""@ + id + "\",\"pod\":\""@ + escaped(pod) + "\",\"ns\":\""@ + escaped(ns)
        + "\",\"cpu\":"@ + decimal(c.usage_usec as nat) + ",\"cq\":"@ + signed_decimal(
        c.cpu_quota as int,
    ) + ",\"cp\":"@ + decimal(c.cpu_period as nat) + ",\"mem\":"@ + decimal(c.mem_current as nat)
        + ",\"ml\":"@ + signed_decimal(c.mem_max as int) + "}"@
}

/// What the pod and the namespace of a container are that no table names.
pub const UNKNOWN: &'static str = "_unknown";

/// Pod and namespace of a container.
pub open spec fn pod_for(id: Seq<char>, names: NameTable) -> (Seq<char>, Seq<char>) {
    match lookup(names, id) {
        Some(p) => p,
        None => (UNKNOWN@, UNKNOWN@),
    }
}

/// The reports of containers.
pub open spec fn container_reports(cgroups: Seq<(String, CgroupStats)>, names: NameTable) -> Seq<
    Seq<char>,
> {
    Seq::new(
        cgroups.len(),
        |i: int|
            container_json(
                cgroups[i].0@,
                pod_for(cgroups[i].0@, names).0,
                pod_for(cgroups[i].0@, names).1,
                cgroups[i].1,
            ),
    )
}

/// The report of all containers at a time.
pub open spec fn report_json(ts: u64, cgroups: Seq<(String, CgroupStats)>, names: NameTable) -> Seq<
    char,
> {
    "{\"ts\":"@ + decimal(ts as nat) + ",\"containers\":["@ + joined(
        container_reports(cgroups, names),
        ","@,
    ) + "]}"@
}

/// Appends a number.
pub fn push_u64(s: &mut String, v: u64)
    ensures
        final(s)@ == old(s)@ + decimal(v as nat),
{
    s.append(u64_text(v).as_str());
}

/// Appends a number that may be negative.
pub fn push_i64(s: &mut String, v: i64)
    ensures
        final(s)@ == old(s)@ + signed_decimal(v as int),
{
    s.append(i64_text(v).as_str());
}

/// Appends a text as it stands in a JSON text.
pub fn push_json_escaped(s: &mut String, v: &str)
    ensures
        final(s)@ == old(s)@ + escaped(v@),
{
    let ghost before = s@;
    let c = chars_of(v);
    let mut i: usize = 0;
    assert(c@.skip(0) =~= v@);
    assert(s@ + escaped(c@.skip(0)) == before + escaped(v@));
    while i < c.len()
        invariant
            c@ == v@,
            i <= c@.len(),
            s@ + escaped(c@.skip(i as int)) == before + escaped(v@),
        decreases c@.len() - i,
    {
        let ch = c[i];
        let ghost now = s@;
        let ghost rest = c@.skip(i as int);
        assert(rest[0] == ch);
        assert(rest.skip(1) =~= c@.skip(i + 1));
        if ch == '"' {
            s.append("\\\"");
        } else if ch == '\\' {
            s.append("\\\\");
        } else if ch == '\n' {
            s.append("\\n");
        } else {
            s.push(ch);
            assert(now.push(ch) =~= now + seq![ch]);
        }
        assert(s@ == now + escape(ch));
        assert(now + (escape(ch) + escaped(rest.skip(1))) =~= (now + escape(ch)) + escaped(
            rest.skip(1),
        ));
        i = i + 1;
    }
    assert(c@.skip(i as int).len() == 0);
    assert(s@ + escaped(c@.skip(i as int)) =~= s@);
}

fn find_name(names: &Vec<(String, (String, String))>, id: &str) -> (r: usize)
    ensures
        r == key_index(name_views(names@), id@),
        r <= names@.len(),
{
    let ghost all = name_views(names@);
    proof {
        lemma_key_index(all, id@);
    }
    let mut i: usize = 0;
    while i < names.len()
        invariant
            i <= names@.len(),
            all == name_views(names@),
            forall|j: int| 0 <= j < i ==> (#[trigger] all[j]).0 != id@,
            0 <= key_index(all, id@) <= all.len(),
            forall|j: int| 0 <= j < key_index(all, id@) ==> (#[trigger] all[j]).0 != id@,
            key_index(all, id@) < all.len() ==> all[key_index(all, id@)].0 == id@,
        decreases names@.len() - i,
    {
        assert(all[i as int].0 == names@[i as int].0@);
        if same(names[i].0.as_str(), id) {
            return i;
        }
        i = i + 1;
    }
    i
}

fn report_of(id: &str, c: &CgroupStats, names: &Vec<(String, (String, String))>) -> (r: String)
    ensures
        r@ == container_json(
            id@,
            pod_for(id@, name_views(names@)).0,
            pod_for(id@, name_views(names@)).1,
            *c,
        ),
{
    let i: usize = find_name(names, id);
    let ghost all = name_views(names@);
    assert(i < names@.len() ==> all[i as int] == (
        names@[i as int].0@,
        (names@[i as int].1.0@, names@[i as int].1.1@),
    ));
    let (pod, ns) = if i < names.len() {
        (names[i].1.0.as_str(), names[i].1.1.as_str())
    } else {
        (UNKNOWN, UNKNOWN)
    };
    let mut s = "{\"id\":\"".to_owned();
    s.append(id);
    s.append("\",\"pod\":\"");
    push_json_escaped(&mut s, pod);
    s.append("\",\"ns\":\"");
    push_json_escaped(&mut s, ns);
    s.append("\",\"cpu\":");
    push_u64(&mut s, c.usage_usec);
    s.append(",\"cq\":");
    push_i64(&mut s, c.cpu_quota);
    s.append(",\"cp\":");
    push_u64(&mut s, c.cpu_period);
    s.append(",\"mem\":");
    push_u64(&mut s, c.mem_current);
    s.append(",\"ml\":");
    push_i64(&mut s, c.mem_max);
    s.append("}");
    s
}

/// The report of all containers at a time.
pub fn build_json(
    ts: u64,
    cgroups: &Vec<(String, CgroupStats)>,
    docker_names: &Vec<(String, (String, String))>,
) -> (r: String)
    ensures
        r@ == report_json(ts, cgroups@, name_views(docker_names@)),
{
    let mut parts = no_texts();
    let ghost all = container_reports(cgroups@, name_views(docker_names@));
    let mut i: usize = 0;
    assert(all.take(0) =~= Seq::<Seq<char>>::empty());
    while i < cgroups.len()
        invariant
            i <= cgroups@.len(),
            all == container_reports(cgroups@, name_views(docker_names@)),
            views(parts@) == all.take(i as int),
        decreases cgroups@.len() - i,
    {
        let t = report_of(cgroups[i].0.as_str(), &cgroups[i].1, docker_names);
        push_text(&mut parts, t.as_str());
        assert(all.take(i + 1) =~= all.take(i as int).push(all[i as int]));
        i = i + 1;
    }
    assert(all.take(i as int) =~= all);
    let mut out = "{\"ts\":".to_owned();
    push_u64(&mut out, ts);
    out.append(",\"containers\":[");
    out.append(join(&parts, ",").as_str());
    out.append("]}");
    out
}

// ---------------------------------------------------------------------------
// Laws
// ---------------------------------------------------------------------------

/// A text is read back from its escaped form.
pub proof fn law_escaping_reads_back(s: Seq<char>)
    ensures
        unescaped(escaped(s)) == s,
    decreases s.len(),
{
    reveal_strlit("\\\"");
    reveal_strlit("\\\\");
    reveal_strlit("\\n");
    if s.len() == 0 {
        assert(unescaped(escaped(s)) =~= s);
    } else {
        let rest = s.skip(1);
        law_escaping_reads_back(rest);
        let e = escape(s[0]);
        let all = escaped(s);
        assert(all == e + escaped(rest));
        if e.len() == 2 {
            assert(all[0] == '\\');
            assert(all[1] == e[1]);
            assert(all.skip(2) =~= escaped(rest));
        } else {
            assert(all[0] == s[0]);
            assert(all[0] != '\\');
            assert(all.skip(1) =~= escaped(rest));
        }
        assert(unescaped(all) =~= seq![s[0]] + rest);
        assert(seq![s[0]] + rest =~= s);
    }
}

/// In an escaped text every quotation mark stands behind a backslash, and no line ends.
pub proof fn law_escaped_text_stays_in_its_quotes(s: Seq<char>, i: int)
    requires
        0 <= i < escaped(s).len(),
    ensures
        escaped(s)[i] != '\n',
        escaped(s)[i] == '"' ==> i > 0 && escaped(s)[i - 1] == '\\',
    decreases s.len(),
{
    reveal_strlit("\\\"");
    reveal_strlit("\\\\");
    reveal_strlit("\\n");
    let e = escape(s[0]);
    let rest = s.skip(1);
    assert(escaped(s) == e + escaped(rest));
    if i >= e.len() {
        law_escaped_text_stays_in_its_quotes(rest, i - e.len());
        assert(escaped(s)[i] == escaped(rest)[i - e.len()]);
        if escaped(s)[i] == '"' {
            assert(escaped(s)[i - 1] == escaped(rest)[i - e.len() - 1]);
        }
    } else {
        assert(escaped(s)[i] == e[i]);
        if i == 1 {
            assert(escaped(s)[0] == e[0]);
        }
    }
}

/// A number in a file is read as it is, whatever white space surrounds it.
pub proof fn law_numbers_in_files_read_back(s: Seq<char>, n: u64, m: i64, default: i64)
    ensures
        trimmed(s) == decimal(n as nat) ==> number_in(Some(s)) == n && old_period(Some(s)) == n,
        trimmed(s) == signed_decimal(m as int) ==> signed_in(Some(s), default) == m,
        trimmed(s) == decimal(n as nat) && n <= 0x1000_0000_0000_0000 ==> old_limit(Some(s)) == n,
        trimmed(s) == decimal(n as nat) && n > 0x1000_0000_0000_0000 ==> old_limit(Some(s)) == -1,
        trimmed(s) == decimal(n as nat) && n <= i64::MAX ==> limit_in(s) == n,
        trimmed(s) == "max"@ ==> limit_in(s) == -1,
        number_in(None) == 0 && signed_in(None, default) == default && old_limit(None) == -1
            && old_period(None) == 100000,
{
    law_decimal_reads_back(n as nat, u64::MAX as nat);
    law_signed_decimal_reads_back(m);
    if n <= i64::MAX {
        law_signed_decimal_reads_back(n as i64);
        assert(signed_decimal(n as int) == decimal(n as nat));
        lemma_decimal(n as nat);
        reveal_strlit("max");
        assert(digit(decimal(n as nat)[0]));
        assert("max"@[0] == 'm');
    }
}

proof fn lemma_two_words(a: Seq<char>, b: Seq<char>)
    requires
        a.len() > 0,
        b.len() > 0,
        forall|i: int| 0 <= i < a.len() ==> !white(#[trigger] a[i]),
        forall|i: int| 0 <= i < b.len() ==> !white(#[trigger] b[i]),
    ensures
        words(a.push(' ') + b) == seq![a, b],
{
    lemma_words_single(a);
    lemma_words_single(b);
    let e = Seq::<char>::empty();
    let s = a.push(' ');
    assert(s.drop_last() =~= a);
    assert(words(s) =~= seq![a]);
    lemma_words_concat(s, b);
    assert(words(s + b) =~= seq![a, b]);
}

proof fn lemma_digits_not_white(n: nat)
    ensures
        decimal(n).len() > 0,
        forall|i: int| 0 <= i < decimal(n).len() ==> !white(#[trigger] decimal(n)[i]),
{
    lemma_decimal(n);
    assert forall|i: int| 0 <= i < decimal(n).len() implies !white(#[trigger] decimal(n)[i]) by {
        assert(digit(decimal(n)[i]));
    }
}

/// Quota and period are read in this order; a quota of `max` is none.
pub proof fn law_quota_and_period_read_back(quota: u64, period: u64)
    requires
        quota <= i64::MAX,
    ensures
        quota_in(decimal(quota as nat).push(' ') + decimal(period as nat)) == (quota as i64, period),
        quota_in("max"@.push(' ') + decimal(period as nat)) == ((-1) as i64, period),
        quota_in(Seq::empty()) == ((-1) as i64, 100000u64),
{
    reveal_strlit("max");
    let a = decimal(quota as nat);
    let b = decimal(period as nat);
    lemma_digits_not_white(quota as nat);
    lemma_digits_not_white(period as nat);
    lemma_two_words(a, b);
    lemma_two_words("max"@, b);
    lemma_decimal(quota as nat);
    assert(digit(a[0]));
    assert("max"@[0] == 'm');
    law_signed_decimal_reads_back(quota as i64);
    assert(signed_decimal(quota as int) == a);
    law_decimal_reads_back(period as nat, u64::MAX as nat);
    assert(words(Seq::<char>::empty()).len() == 0);
}

/// The processor time is the number behind its name, on whatever line it stands.
pub proof fn law_processor_time_reads_back(content: Seq<char>, n: u64, k: int)
    requires
        0 <= k < lines(content).len(),
        lines(content)[k] == "usage_usec"@.push(' ') + decimal(n as nat),
        forall|i: int| 0 <= i < k ==> !begins(#[trigger] lines(content)[i], "usage_usec"@),
    ensures
        usage_in(content) == n,
{
    reveal_strlit("usage_usec");
    let l = lines(content)[k];
    assert(l.subrange(0, "usage_usec"@.len() as int) =~= "usage_usec"@);
    lemma_first_line(lines(content), "usage_usec"@, k);
    lemma_digits_not_white(n as nat);
    lemma_two_words("usage_usec"@, decimal(n as nat));
    law_decimal_reads_back(n as nat, u64::MAX as nat);
}

proof fn lemma_first_line(ls: Seq<Seq<char>>, head: Seq<char>, k: int)
    requires
        0 <= k < ls.len(),
        begins(ls[k], head),
        forall|i: int| 0 <= i < k ==> !begins(#[trigger] ls[i], head),
    ensures
        first_line(ls, head) == Some(ls[k]),
    decreases ls.len(),
{
    if k > 0 {
        let r = ls.skip(1);
        assert forall|i: int| 0 <= i < k - 1 implies !begins(#[trigger] r[i], head) by {
            assert(r[i] == ls[i + 1]);
        }
        assert(r[k - 1] == ls[k]);
        lemma_first_line(r, head, k - 1);
    }
}

/// Each figure comes from its own file: what another file holds makes no difference to it.
pub proof fn law_figures_come_from_their_files(
    a: Option<String>,
    b: Option<String>,
    c: Option<String>,
    d: Option<String>,
    e: Option<String>,
    f: Option<String>,
    g: Option<String>,
    h: Option<String>,
)
    requires
        a is Some,
        e is Some,
    ensures
        v2_stats(a, b, c, d) is Some && v2_stats(e, f, g, h) is Some,
        v2_stats(None, b, c, d) is None,
        a == e ==> v2_stats(a, b, c, d)->0.usage_usec == v2_stats(e, f, g, h)->0.usage_usec,
        b == f ==> v2_stats(a, b, c, d)->0.cpu_quota == v2_stats(e, f, g, h)->0.cpu_quota && v2_stats(
            a,
            b,
            c,
            d,
        )->0.cpu_period == v2_stats(e, f, g, h)->0.cpu_period,
        c == g ==> v2_stats(a, b, c, d)->0.mem_current == v2_stats(e, f, g, h)->0.mem_current,
        d == h ==> v2_stats(a, b, c, d)->0.mem_max == v2_stats(e, f, g, h)->0.mem_max,
        v2_stats(a, b, c, d)->0.usage_usec == usage_in(a->0@),
        c is Some ==> v2_stats(a, b, c, d)->0.mem_current == number_in(Some(c->0@)),
        d is Some ==> v2_stats(a, b, c, d)->0.mem_max == limit_in(d->0@),
        b is Some ==> (v2_stats(a, b, c, d)->0.cpu_quota, v2_stats(a, b, c, d)->0.cpu_period)
            == quota_in(b->0@),
{
}

/// In the first version the processor time is in nanoseconds, and memory is known only where its group
/// is.
pub proof fn law_old_figures_are_converted(
    usage: Option<String>,
    quota: Option<String>,
    period: Option<String>,
    memory: Option<(Option<String>, Option<String>)>,
)
    ensures
        v1_stats(usage, quota, period, memory).usage_usec * 1000 <= number_in(opt_view(usage)) < (
        v1_stats(usage, quota, period, memory).usage_usec + 1) * 1000,
        v1_stats(usage, quota, period, memory).cpu_quota == signed_in(opt_view(quota), (-1) as i64),
        v1_stats(usage, quota, period, memory).cpu_period == old_period(opt_view(period)),
        memory is None ==> v1_stats(usage, quota, period, memory).mem_current == 0 && v1_stats(
            usage,
            quota,
            period,
            memory,
        ).mem_max == -1,
        memory is Some ==> v1_stats(usage, quota, period, memory).mem_current == number_in(
            opt_view((memory->0).0),
        ) && v1_stats(usage, quota, period, memory).mem_max == old_limit(opt_view((memory->0).1)),
{
}

/// The memory of a container is in the group of the same name below the memory controller.
pub proof fn law_memory_group_has_the_same_name(a: Seq<char>, b: Seq<char>)
    ensures
        sub_index(a + "/cpu,cpuacct/"@ + b, "/cpu,cpuacct/"@) == Some(a.len() as int) ==> memory_path(
            a + "/cpu,cpuacct/"@ + b,
        ) == Some(a + "/memory/"@ + b),
        sub_index(a + "/cpu/"@ + b, "/cpu/"@) == Some(a.len() as int) && !has_sub(
            a + "/cpu/"@ + b,
            "/cpu,cpuacct/"@,
        ) ==> memory_path(a + "/cpu/"@ + b) == Some(a + "/memory/"@ + b),
{
    let s = a + "/cpu,cpuacct/"@ + b;
    lemma_has_sub(s, "/cpu,cpuacct/"@);
    assert(s.take(a.len() as int) =~= a);
    assert(s.skip(a.len() + "/cpu,cpuacct/"@.len() as int) =~= b);
    let t = a + "/cpu/"@ + b;
    lemma_has_sub(t, "/cpu/"@);
    assert(t.take(a.len() as int) =~= a);
    assert(t.skip(a.len() + "/cpu/"@.len() as int) =~= b);
}

/// Pod and namespace are the third and fourth part of a container's name; a pause container is none of
/// a pod.
pub proof fn law_container_names_tell_the_pod(
    name: Seq<char>,
    container: Seq<char>,
    pod: Seq<char>,
    ns: Seq<char>,
    rest: Seq<char>,
)
    requires
        !container.contains('_'),
        !pod.contains('_'),
        !ns.contains('_'),
        name == "k8s"@.push('_') + (container.push('_') + (pod.push('_') + (ns.push('_') + rest))),
    ensures
        container != "POD"@ ==> pod_in(name) == Some((pod, ns)),
        container == "POD"@ ==> pod_in(name) is None,
{
    reveal_strlit("k8s");
    reveal_strlit("k8s_");
    reveal_strlit("POD");
    reveal_strlit("k8s_POD_");
    let s4 = ns.push('_') + rest;
    let s3 = pod.push('_') + s4;
    let s2 = container.push('_') + s3;
    assert(!"k8s"@.contains('_'));
    lemma_pieces_head("k8s"@, '_', s2);
    lemma_pieces_head(container, '_', s3);
    lemma_pieces_head(pod, '_', s4);
    lemma_pieces_head(ns, '_', rest);
    lemma_pieces_nonempty(rest, '_');
    let p = pieces(name, '_');
    assert(p[2] == pod && p[3] == ns);
    assert(name.subrange(0, 4) =~= "k8s_"@);
    if container == "POD"@ {
        assert(name.subrange(0, 8) =~= "k8s_POD_"@);
    } else if begins(name, "k8s_POD_"@) {
        let h = name.subrange(0, 8);
        assert(h == "k8s_POD_"@);
        assert(h[4] == 'P' && h[5] == 'O' && h[6] == 'D' && h[7] == '_');
        assert(name[4] == 'P' && name[5] == 'O' && name[6] == 'D' && name[7] == '_');
        assert(name[container.len() as int + 4] == '_');
        if container.len() > 3 {
            assert(container[3] == name[7]);
            assert(container.contains('_'));
        } else if container.len() == 3 {
            assert(container[0] == name[4] && container[1] == name[5] && container[2] == name[6]);
            assert(container =~= "POD"@);
        }
    }
}

/// A container whose name is found is in the table, and none that is in it is lost by what follows.
pub proof fn law_found_containers_stay_in_the_table(body: Seq<char>, pos: int, t: NameTable, key: Seq<char>)
    ensures
        lookup(t, key) is Some ==> lookup(names_from(body, pos, t), key) is Some,
        0 <= pos < body.len() && next_id(body, pos) is Some && {
            let (a, e) = next_id(body, pos)->0;
            &&& pos <= e < body.len()
            &&& key == body.subrange(a, e)
            &&& name_after(body, e) is Some
            &&& pod_in(name_after(body, e)->0) is Some
        } ==> lookup(names_from(body, pos, t), key) is Some,
    decreases body.len() - pos,
{
    if 0 <= pos < body.len() {
        if let Some((a, e)) = next_id(body, pos) {
            if pos <= e < body.len() {
                let u = with_container(t, body, a, e);
                if let Some(n) = name_after(body, e) {
                    if let Some(p) = pod_in(n) {
                        law_put_then_lookup(t, body.subrange(a, e), p, key);
                    }
                }
                law_found_containers_stay_in_the_table(body, e + 1, u, key);
            }
        }
    }
}

/// Whether an answer says of a container that it is one of a pod: its identifier stands between
/// quotation marks, behind the mark of one, and the pod in the name that follows.
pub open spec fn said_at(
    body: Seq<char>,
    a: int,
    e: int,
    key: Seq<char>,
    pod: Option<(Seq<char>, Seq<char>)>,
) -> bool {
    &&& 0 <= a <= e < body.len()
    &&& body.subrange(a, e) == key
    &&& occurs_at(body, "\"Id\":\""@, a - "\"Id\":\""@.len())
    &&& body[e] == '"'
    &&& name_after(body, e) matches Some(n)
    &&& pod is Some
    &&& pod_in(n) == pod
}

proof fn lemma_next_id(body: Seq<char>, pos: int, a: int, e: int)
    requires
        0 <= pos,
        next_id(body, pos) == Some((a, e)),
    ensures
        0 <= a <= e < body.len(),
        occurs_at(body, "\"Id\":\""@, a - "\"Id\":\""@.len()),
        body[e] == '"',
{
    reveal_strlit("\"");
    lemma_sub_index_from(body, ID_MARK@, pos);
    lemma_sub_index_from(body, "\""@, a);
    assert(body.subrange(e, e + 1)[0] == '"');
}

proof fn lemma_with_container(t: NameTable, body: Seq<char>, a: int, e: int, key: Seq<char>)
    ensures
        lookup(with_container(t, body, a, e), key) == lookup(t, key) || (body.subrange(a, e) == key
            && name_after(body, e) is Some && pod_in(name_after(body, e)->0) is Some && pod_in(
            name_after(body, e)->0,
        ) == lookup(with_container(t, body, a, e), key)),
{
    if let Some(n) = name_after(body, e) {
        if let Some(p) = pod_in(n) {
            law_put_then_lookup(t, body.subrange(a, e), p, key);
        }
    }
}

/// What the table says of a container was known before or stands in Docker's answer.
pub proof fn law_table_holds_what_the_answer_says(body: Seq<char>, pos: int, t: NameTable, key: Seq<char>)
    ensures
        lookup(names_from(body, pos, t), key) == lookup(t, key) || exists|a: int, e: int|
            #[trigger] said_at(body, a, e, key, lookup(names_from(body, pos, t), key)),
    decreases body.len() - pos,
{
    if 0 <= pos < body.len() {
        if let Some((a, e)) = next_id(body, pos) {
            if pos <= e < body.len() {
                let u = with_container(t, body, a, e);
                law_table_holds_what_the_answer_says(body, e + 1, u, key);
                lemma_next_id(body, pos, a, e);
                lemma_with_container(t, body, a, e, key);
                if lookup(u, key) != lookup(t, key) {
                    assert(said_at(body, a, e, key, lookup(u, key)));
                }
            }
        }
    }
}

/// The body of an answer is what follows its first empty line.
pub proof fn law_body_follows_the_head(response: Seq<char>, i: int)
    ensures
        sub_index(response, "\r\n\r\n"@) == Some(i) ==> body_of(response) is Some && response.take(i)
            + "\r\n\r\n"@ + body_of(response)->0 == response,
        !has_sub(response, "\r\n\r\n"@) ==> body_of(response) is None,
{
    reveal_strlit("\r\n\r\n");
    lemma_has_sub(response, "\r\n\r\n"@);
    lemma_sub_index_from(response, "\r\n\r\n"@, 0);
    if sub_index(response, "\r\n\r\n"@) == Some(i) {
        let m = response.subrange(i, i + 4);
        assert(m == "\r\n\r\n"@);
        assert(response.take(i) + m + response.skip(i + 4) =~= response);
    }
}

/// Every container is in the report, with its pod where that is known.
pub proof fn law_every_container_is_reported(
    ts: u64,
    cgroups: Seq<(String, CgroupStats)>,
    names: NameTable,
    i: int,
)
    requires
        0 <= i < cgroups.len(),
    ensures
        container_reports(cgroups, names).len() == cgroups.len(),
        lookup(names, cgroups[i].0@) matches Some(p) ==> has_sub(
            report_json(ts, cgroups, names),
            container_json(cgroups[i].0@, p.0, p.1, cgroups[i].1),
        ),
        lookup(names, cgroups[i].0@) is None ==> has_sub(
            report_json(ts, cgroups, names),
            container_json(cgroups[i].0@, "_unknown"@, "_unknown"@, cgroups[i].1),
        ),
        has_sub(report_json(ts, cgroups, names), decimal(ts as nat)),
{
    let r = container_reports(cgroups, names);
    let x = r[i];
    lemma_part_of_joined(r, ","@, i);
    let j = joined(r, ","@);
    let a = "{\"ts\":"@;
    let d = decimal(ts as nat);
    let b = ",\"containers\":["@;
    lemma_has_in(x, a + d + b, j);
    lemma_has_in(x, a + d + b + j, "]}"@);
    lemma_has_in(d, a, d);
    lemma_has_in(d, d, d);
    lemma_has_in(d, a + d, b);
    lemma_has_in(d, a + d + b, j);
    lemma_has_in(d, a + d + b + j, "]}"@);
}

/// The report of a container holds each of its figures behind its name.
pub proof fn law_reports_hold_the_figures(id: Seq<char>, pod: Seq<char>, ns: Seq<char>, c: CgroupStats)
    ensures
        has_sub(container_json(id, pod, ns, c), "{\"id\":\""@ + id),
        has_sub(container_json(id, pod, ns, c), "\",\"pod\":\""@ + escaped(pod)),
        has_sub(container_json(id, pod, ns, c), "\",\"ns\":\""@ + escaped(ns)),
        has_sub(container_json(id, pod, ns, c), "\",\"cpu\":"@ + decimal(c.usage_usec as nat)),
        has_sub(container_json(id, pod, ns, c), ",\"cq\":"@ + signed_decimal(c.cpu_quota as int)),
        has_sub(container_json(id, pod, ns, c), ",\"cp\":"@ + decimal(c.cpu_period as nat)),
        has_sub(container_json(id, pod, ns, c), ",\"mem\":"@ + decimal(c.mem_current as nat)),
        has_sub(container_json(id, pod, ns, c), ",\"ml\":"@ + signed_decimal(c.mem_max as int)),
{
    let h0 = Seq::<char>::empty();
    let h1 = "{\"id\":\""@ + id;
    let h2 = h1 + "\",\"pod\":\""@ + escaped(pod);
    let h3 = h2 + "\",\"ns\":\""@ + escaped(ns);
    let h4 = h3 + "\",\"cpu\":"@ + decimal(c.usage_usec as nat);
    let h5 = h4 + ",\"cq\":"@ + signed_decimal(c.cpu_quota as int);
    let h6 = h5 + ",\"cp\":"@ + decimal(c.cpu_period as nat);
    let h7 = h6 + ",\"mem\":"@ + decimal(c.mem_current as nat);
    let h8 = h7 + ",\"ml\":"@ + signed_decimal(c.mem_max as int);
    let h9 = h8 + "}"@;
    assert(container_json(id, pod, ns, c) == h9);
    let x1 = "{\"id\":\""@ + id;
    let x2 = "\",\"pod\":\""@ + escaped(pod);
    let x3 = "\",\"ns\":\""@ + escaped(ns);
    let x4 = "\",\"cpu\":"@ + decimal(c.usage_usec as nat);
    let x5 = ",\"cq\":"@ + signed_decimal(c.cpu_quota as int);
    let x6 = ",\"cp\":"@ + decimal(c.cpu_period as nat);
    let x7 = ",\"mem\":"@ + decimal(c.mem_current as nat);
    let x8 = ",\"ml\":"@ + signed_decimal(c.mem_max as int);
    lemma_regroup(h1, "\",\"pod\":\""@, escaped(pod));
    lemma_regroup(h2, "\",\"ns\":\""@, escaped(ns));
    lemma_regroup(h3, "\",\"cpu\":"@, decimal(c.usage_usec as nat));
    lemma_regroup(h4, ",\"cq\":"@, signed_decimal(c.cpu_quota as int));
    lemma_regroup(h5, ",\"cp\":"@, decimal(c.cpu_period as nat));
    lemma_regroup(h6, ",\"mem\":"@, decimal(c.mem_current as nat));
    lemma_regroup(h7, ",\"ml\":"@, signed_decimal(c.mem_max as int));
    lemma_has_in(x8, x8, x8);
    lemma_has_in(x8, h7, x8);
    lemma_has_in(x8, h8, "}"@);
    lemma_has_in(x7, x7, x7);
    lemma_has_in(x7, h6, x7);
    lemma_behind(x7, h7, x8);
    lemma_has_in(x6, x6, x6);
    lemma_has_in(x6, h5, x6);
    lemma_has_in(x6, h6, x7);
    lemma_behind(x6, h7, x8);
    lemma_has_in(x5, x5, x5);
    lemma_has_in(x5, h4, x5);
    lemma_has_in(x5, h5, x6);
    lemma_has_in(x5, h6, x7);
    lemma_behind(x5, h7, x8);
    lemma_has_in(x4, x4, x4);
    lemma_has_in(x4, h3, x4);
    lemma_has_in(x4, h4, x5);
    lemma_has_in(x4, h5, x6);
    lemma_has_in(x4, h6, x7);
    lemma_behind(x4, h7, x8);
    lemma_has_in(x3, x3, x3);
    lemma_has_in(x3, h2, x3);
    lemma_has_in(x3, h3, x4);
    lemma_has_in(x3, h4, x5);
    lemma_has_in(x3, h5, x6);
    lemma_has_in(x3, h6, x7);
    lemma_behind(x3, h7, x8);
    lemma_has_in(x2, x2, x2);
    lemma_has_in(x2, h1, x2);
    lemma_has_in(x2, h2, x3);
    lemma_has_in(x2, h3, x4);
    lemma_has_in(x2, h4, x5);
    lemma_has_in(x2, h5, x6);
    lemma_has_in(x2, h6, x7);
    lemma_behind(x2, h7, x8);
    lemma_has_in(x1, x1, x1);
    lemma_has_in(x1, h1, x2);
    lemma_has_in(x1, h2, x3);
    lemma_has_in(x1, h3, x4);
    lemma_has_in(x1, h4, x5);
    lemma_has_in(x1, h5, x6);
    lemma_has_in(x1, h6, x7);
    lemma_behind(x1, h7, x8);
}

proof fn lemma_regroup(a: Seq<char>, b: Seq<char>, c: Seq<char>)
    ensures
        a + b + c == a + (b + c),
{
    assert(a + b + c =~= a + (b + c));
}

proof fn lemma_behind(x: Seq<char>, h: Seq<char>, y: Seq<char>)
    requires
        has_sub(h, x),
    ensures
        has_sub(h + y + "}"@, x),
{
    lemma_has_in(x, h, y);
    lemma_has_in(x, h + y, "}"@);
}

/// What is no group of pods and has no processor time is nothing.
pub proof fn law_groups_hold_pods(name: Seq<char>, rest: Seq<char>, v2: bool)
    ensures
        name == "burstable"@ || name == "besteffort"@ || name == "guaranteed"@ || name == "pod"@
            + rest ==> is_group(name, v2),
        name == "kubepods"@ + rest ==> is_group(name, false),
        name.len() == 0 ==> !is_group(name, v2),
{
    reveal_strlit("burstable");
    reveal_strlit("besteffort");
    reveal_strlit("guaranteed");
    reveal_strlit("pod");
    reveal_strlit("kubepods");
    if name == "pod"@ + rest {
        assert(name.subrange(0, 3) =~= "pod"@);
    }
    if name == "kubepods"@ + rest {
        assert(name.subrange(0, 8) =~= "kubepods"@);
    }
}

/// The table of an answer starts with nothing: what it says stands in the answer.
pub proof fn law_names_come_from_the_answer(body: Seq<char>, key: Seq<char>)
    ensures
        lookup(container_names(body), key) is Some ==> exists|a: int, e: int|
            #[trigger] said_at(body, a, e, key, lookup(container_names(body), key)),
{
    law_table_holds_what_the_answer_says(body, 0, Seq::empty(), key);
    assert(lookup(Seq::<(Seq<char>, (Seq<char>, Seq<char>))>::empty(), key) is None);
}

} // verus!
