//! Which pods the selected menu entry concerns.

use vstd::prelude::*;
use crate::app::commands::{CommandEntry, ExecutionTarget};
use crate::text::{
    chars_of, contains, find_char, has_sub, holds, index_of, lemma_index_of, lemma_views_push,
    pieces, same, split, string_of_range, trim, trimmed, views,
};

verus! {

/// What of a Kubernetes target says which pods it means.
#[derive(Clone, Debug)]
pub struct KubernetesTargetOwned {
    pub namespace: String,
    pub selector: String,
    pub pod_name: String,
}

/// The model of [`KubernetesTargetOwned`].
pub struct TargetView {
    pub namespace: Seq<char>,
    pub selector: Seq<char>,
    pub pod_name: Seq<char>,
}

impl View for KubernetesTargetOwned {
    type V = TargetView;

    open spec fn view(&self) -> TargetView {
        TargetView {
            namespace: self.namespace@,
            selector: self.selector@,
            pod_name: self.pod_name@,
        }
    }
}

/// The models of a sequence of targets.
pub open spec fn target_views(v: Seq<KubernetesTargetOwned>) -> Seq<TargetView> {
    Seq::new(v.len(), |i: int| v[i]@)
}

/// The pods that a target means: nothing for one outside Kubernetes.
pub open spec fn target_of(t: ExecutionTarget) -> Option<TargetView> {
    match t {
        ExecutionTarget::Kubernetes { namespace, selector, pod_name, container } => Some(
            TargetView { namespace: namespace@, selector: selector@, pod_name: pod_name@ },
        ),
        _ => None,
    }
}

/// The target of an entry itself, as a list of at most one.
pub open spec fn own_target(e: CommandEntry) -> Seq<TargetView> {
    match e.execution {
        Some(x) => match target_of(x.target) {
            Some(t) => seq![t],
            None => Seq::empty(),
        },
        None => Seq::empty(),
    }
}

/// The targets of entries and of everything below them, in order.
pub open spec fn targets_below(entries: Seq<CommandEntry>) -> Seq<TargetView>
    decreases entries,
{
    if entries.len() == 0 {
        Seq::empty()
    } else {
        targets_below(entries.drop_last()) + (own_target(entries.last()) + targets_below(
            entries[entries.len() - 1].commands@,
        ))
    }
}

/// The pods that a target means.
pub fn kubernetes_target_owned(target: &ExecutionTarget) -> (r: Option<KubernetesTargetOwned>)
    ensures
        match r {
            Some(t) => target_of(*target) == Some(t@),
            None => target_of(*target) is None,
        },
{
    match target {
        ExecutionTarget::Kubernetes { namespace, selector, pod_name, container: _ } => Some(
            KubernetesTargetOwned {
                namespace: namespace.clone(),
                selector: selector.clone(),
                pod_name: pod_name.clone(),
            },
        ),
        _ => None,
    }
}

fn push_own_target(e: &CommandEntry, targets: &mut Vec<KubernetesTargetOwned>)
    ensures
        target_views(final(targets)@) == target_views(old(targets)@) + own_target(*e),
{
    let ghost before = target_views(targets@);
    if let Some(x) = &e.execution {
        if let Some(t) = kubernetes_target_owned(&x.target) {
            targets.push(t);
            assert(target_views(targets@) =~= before + own_target(*e));
            return;
        }
    }
    assert(target_views(targets@) =~= before + own_target(*e));
}

/// Appends the targets of entries and of everything below them.
pub fn collect_targets_recursive(
    entries: &Vec<CommandEntry>,
    targets: &mut Vec<KubernetesTargetOwned>,
)
    ensures
        target_views(final(targets)@) == target_views(old(targets)@) + targets_below(entries@),
    decreases entries@,
{
    let ghost before = target_views(targets@);
    let mut i: usize = 0;
    assert(before + targets_below(entries@.take(0)) =~= before);
    while i < entries.len()
        invariant
            i <= entries@.len(),
            target_views(targets@) == before + targets_below(entries@.take(i as int)),
        decreases entries@.len() - i,
    {
        let ghost so_far = targets_below(entries@.take(i as int));
        assert(entries@.take(i + 1).drop_last() =~= entries@.take(i as int));
        assert(entries@.take(i + 1).last() == entries@[i as int]);
        push_own_target(&entries[i], targets);
        assert(decreases_to!(entries@ => entries@[i as int]));
        assert(decreases_to!(entries@[i as int] => entries@[i as int].commands));
        assert(decreases_to!(entries@[i as int].commands => entries@[i as int].commands@));
        collect_targets_recursive(&entries[i].commands, targets);
        assert(target_views(targets@) =~= before + (so_far + (own_target(entries@[i as int])
            + targets_below(entries@[i as int].commands@))));
        i = i + 1;
    }
    assert(entries@.take(i as int) =~= entries@);
}

/// What follows the first equals sign, where there is one.
pub open spec fn label_value(part: Seq<char>) -> Option<Seq<char>> {
    let i = index_of(part, '=');
    if i < part.len() {
        Some(part.skip(i + 1))
    } else {
        None
    }
}

/// Whether some `key=value` of a selector has a value that the pod's name holds.
pub open spec fn selected(selector: Seq<char>, pod: Seq<char>) -> bool {
    exists|i: int|
        0 <= i < pieces(selector, ',').len() && match label_value(
            trimmed(#[trigger] pieces(selector, ',')[i]),
        ) {
            Some(v) => has_sub(pod, v),
            None => false,
        }
}

/// Whether a target means a pod: by namespace, then by name, else by selector, else by the
/// namespace alone.
pub open spec fn target_matches(t: TargetView, pod: Seq<char>, namespace: Seq<char>) -> bool {
    if t.namespace.len() > 0 && t.namespace != namespace {
        false
    } else if t.pod_name.len() > 0 {
        has_sub(pod, t.pod_name)
    } else if t.selector.len() > 0 {
        selected(t.selector, pod)
    } else {
        t.namespace.len() > 0
    }
}

fn value_after_equals(part: &str) -> (r: Option<String>)
    ensures
        crate::text::opt_view(r) == label_value(part@),
{
    let v = chars_of(part);
    let i: usize = find_char(&v, '=');
    proof {
        lemma_index_of(v@, '=');
    }
    if i < v.len() {
        assert(v@.subrange(i + 1, v@.len() as int) =~= v@.skip(i + 1));
        Some(string_of_range(&v, i + 1, v.len()))
    } else {
        None
    }
}

/// Whether a target means the pod `name` in `namespace`.
pub fn matches_target(target: &KubernetesTargetOwned, name: &str, namespace: &str) -> (r: bool)
    ensures
        r == target_matches(target@, name@, namespace@),
{
    if !target.namespace.as_str().is_empty() && !same(target.namespace.as_str(), namespace) {
        return false;
    }
    if !target.pod_name.as_str().is_empty() {
        return contains(name, target.pod_name.as_str());
    }
    if !target.selector.as_str().is_empty() {
        let parts = split(target.selector.as_str(), ',');
        let ghost all = pieces(target.selector@, ',');
        let mut i: usize = 0;
        while i < parts.len()
            invariant
                i <= parts@.len(),
                views(parts@) == all,
                all == pieces(target.selector@, ','),
                forall|j: int|
                    0 <= j < i ==> !(match label_value(trimmed(#[trigger] all[j])) {
                        Some(v) => has_sub(name@, v),
                        None => false,
                    }),
                target.pod_name@.len() == 0,
                target.selector@.len() > 0,
                target.namespace@.len() == 0 || target.namespace@ == namespace@,
            decreases parts@.len() - i,
        {
            assert(all[i as int] == parts@[i as int]@);
            let t = trim(parts[i].as_str());
            if let Some(v) = value_after_equals(t.as_str()) {
                if contains(name, v.as_str()) {
                    assert(selected(target.selector@, name@));
                    return true;
                }
            }
            i = i + 1;
        }
        assert(!selected(target.selector@, name@));
        return false;
    }
    !target.namespace.as_str().is_empty()
}

// ---------------------------------------------------------------------------
// Highlighted pods
// ---------------------------------------------------------------------------

/// A line of the menu: how deep it is nested, and its command where it has one.
#[derive(Debug)]
pub struct MenuLine {
    pub level: usize,
    pub command: Option<CommandEntry>,
}

/// The selected menu entry.
#[derive(Debug)]
pub struct SelectedLine {
    pub index: usize,
    pub has_children: bool,
    /// The commands of the group, where the entry is one.
    pub group: Option<Vec<CommandEntry>>,
}

/// A pod by name and namespace.
#[derive(Debug, Clone)]
pub struct PodRef {
    pub name: String,
    pub namespace: String,
}

/// The targets of a line.
pub open spec fn line_targets(l: MenuLine) -> Seq<TargetView> {
    match l.command {
        Some(c) => own_target(c),
        None => Seq::empty(),
    }
}

/// The targets of the lines below line `i - 1` that are nested deeper than `level`.
pub open spec fn nested_targets(lines: Seq<MenuLine>, i: int, level: usize) -> Seq<TargetView>
    decreases lines.len() - i,
{
    if i < 0 || i >= lines.len() || lines[i].level <= level {
        Seq::empty()
    } else {
        line_targets(lines[i]) + nested_targets(lines, i + 1, level)
    }
}

/// The targets that the selected entry stands for: its own; all of a group; those nested below
/// an entry with children.
pub open spec fn selected_targets(lines: Seq<MenuLine>, s: SelectedLine) -> Seq<TargetView> {
    let i = s.index as int;
    line_targets(lines[i]) + match s.group {
        Some(g) => targets_below(g@),
        None => if s.has_children {
            nested_targets(lines, i + 1, lines[i].level)
        } else {
            Seq::empty()
        },
    }
}

/// Whether some target means the pod.
pub open spec fn meant(targets: Seq<TargetView>, p: PodRef) -> bool {
    exists|i: int|
        0 <= i < targets.len() && target_matches(#[trigger] targets[i], p.name@, p.namespace@)
}

/// Whether `name` is the name of a pod that some target means.
pub open spec fn highlighted(targets: Seq<TargetView>, pods: Seq<PodRef>, name: Seq<char>) -> bool {
    exists|j: int| 0 <= j < pods.len() && (#[trigger] pods[j]).name@ == name && meant(targets, pods[j])
}

fn is_meant(targets: &Vec<KubernetesTargetOwned>, p: &PodRef) -> (r: bool)
    ensures
        r == meant(target_views(targets@), *p),
{
    let ghost all = target_views(targets@);
    let mut i: usize = 0;
    while i < targets.len()
        invariant
            i <= targets@.len(),
            all == target_views(targets@),
            forall|j: int| 0 <= j < i ==> !target_matches(#[trigger] all[j], p.name@, p.namespace@),
        decreases targets@.len() - i,
    {
        assert(all[i as int] == targets@[i as int]@);
        if matches_target(&targets[i], p.name.as_str(), p.namespace.as_str()) {
            return true;
        }
        i = i + 1;
    }
    false
}

/// The names of the pods that the targets mean, each once.
fn meant_names(targets: &Vec<KubernetesTargetOwned>, pods: &Vec<PodRef>) -> (r: Vec<String>)
    ensures
        forall|n: Seq<char>|
            views(r@).contains(n) <==> highlighted(target_views(targets@), pods@, n),
        views(r@).no_duplicates(),
{
    let ghost all = target_views(targets@);
    let mut out: Vec<String> = Vec::new();
    let mut i: usize = 0;
    while i < pods.len()
        invariant
            i <= pods@.len(),
            all == target_views(targets@),
            views(out@).no_duplicates(),
            forall|n: Seq<char>|
                views(out@).contains(n) <==> highlighted(all, pods@.take(i as int), n),
        decreases pods@.len() - i,
    {
        let ghost before = views(out@);
        let ghost head = pods@.take(i as int);
        let ghost longer = pods@.take(i + 1);
        assert(longer =~= head.push(pods@[i as int]));
        let yes = is_meant(targets, &pods[i]);
        if yes && !holds(&out, pods[i].name.as_str()) {
            proof {
                lemma_views_push(out@, pods@[i as int].name);
            }
            out.push(pods[i].name.clone());
            assert(views(out@) == before.push(pods@[i as int].name@));
        }
        assert forall|n: Seq<char>| views(out@).contains(n) <==> highlighted(all, longer, n) by {
            if highlighted(all, head, n) {
                let j = choose|j: int|
                    0 <= j < head.len() && (#[trigger] head[j]).name@ == n && meant(all, head[j]);
                assert(longer[j] == head[j]);
                assert(highlighted(all, longer, n));
            }
            if highlighted(all, longer, n) {
                let j = choose|j: int|
                    0 <= j < longer.len() && (#[trigger] longer[j]).name@ == n && meant(
                        all,
                        longer[j],
                    );
                if j < i {
                    assert(head[j] == longer[j]);
                    assert(highlighted(all, head, n));
                }
            }
            if yes {
                assert(longer[i as int] == pods@[i as int]);
                assert(highlighted(all, longer, pods@[i as int].name@));
            }
            if before.contains(n) {
                let k = choose|k: int| 0 <= k < before.len() && before[k] == n;
                assert(views(out@)[k] == n);
            }
            if views(out@).contains(n) && !before.contains(n) {
                let k = choose|k: int| 0 <= k < views(out@).len() && views(out@)[k] == n;
                assert(k < before.len() ==> before[k] == n);
            }
            if yes && n == pods@[i as int].name@ && !before.contains(n) {
                assert(views(out@).last() == n);
            }
        }
        i = i + 1;
    }
    assert(pods@.take(i as int) =~= pods@);
    out
}

/// The names of the pods that the selected menu entry concerns, each once. Without a selection
/// there are none.
pub fn compute_highlighted_pods(
    lines: &Vec<MenuLine>,
    s: &Option<SelectedLine>,
    pods: &Vec<PodRef>,
) -> (r: Vec<String>)
    requires
        s matches Some(x) ==> x.index < lines@.len(),
    ensures
        views(r@).no_duplicates(),
        match *s {
            None => r@.len() == 0,
            Some(x) => forall|n: Seq<char>|
                views(r@).contains(n) <==> highlighted(selected_targets(lines@, x), pods@, n),
        },
{
    match s {
        None => Vec::new(),
        Some(x) => {
            let mut targets: Vec<KubernetesTargetOwned> = Vec::new();
            assert(target_views(targets@) =~= Seq::<TargetView>::empty());
            if let Some(c) = &lines[x.index].command {
                push_own_target(c, &mut targets);
            }
            assert(target_views(targets@) =~= line_targets(lines@[x.index as int]));
            match &x.group {
                Some(g) => collect_targets_recursive(g, &mut targets),
                None => if x.has_children {
                    let level: usize = lines[x.index].level;
                    let n: usize = lines.len();
                    assert(x.index < n);
                    let ghost base = target_views(targets@);
                    let mut i: usize = x.index + 1;
                    let ghost all = nested_targets(lines@, i as int, level);
                    while i < lines.len() && lines[i].level > level
                        invariant
                            i <= lines@.len(),
                            base + all == target_views(targets@) + nested_targets(
                                lines@,
                                i as int,
                                level,
                            ),
                        decreases lines@.len() - i,
                    {
                        let ghost now = target_views(targets@);
                        if let Some(c) = &lines[i].command {
                            push_own_target(c, &mut targets);
                        }
                        assert(target_views(targets@) =~= now + line_targets(lines@[i as int]));
                        assert(now + (line_targets(lines@[i as int]) + nested_targets(
                            lines@,
                            i + 1,
                            level,
                        )) =~= target_views(targets@) + nested_targets(lines@, i + 1, level));
                        i = i + 1;
                    }
                    assert(target_views(targets@) =~= base + all);
                },
            }
            assert(target_views(targets@) =~= selected_targets(lines@, *x));
            meant_names(&targets, pods)
        },
    }
}

/// Only pods that exist are highlighted.
pub proof fn law_highlighted_pods_exist(targets: Seq<TargetView>, pods: Seq<PodRef>, name: Seq<char>)
    requires
        highlighted(targets, pods, name),
    ensures
        exists|j: int| 0 <= j < pods.len() && (#[trigger] pods[j]).name@ == name,
{
    let j = choose|j: int|
        0 <= j < pods.len() && (#[trigger] pods[j]).name@ == name && meant(targets, pods[j]);
    assert(pods[j].name@ == name);
}

/// A target with a namespace means no pod of another one.
pub proof fn law_namespaces_separate(t: TargetView, pod: Seq<char>, namespace: Seq<char>)
    requires
        t.namespace.len() > 0,
        t.namespace != namespace,
    ensures
        !target_matches(t, pod, namespace),
{
}

/// A group stands for the target of each of its commands and for everything below them.
pub proof fn law_groups_stand_for_all_below(entries: Seq<CommandEntry>, i: int, t: TargetView)
    requires
        0 <= i < entries.len(),
        own_target(entries[i]).contains(t) || targets_below(entries[i].commands@).contains(t),
    ensures
        targets_below(entries).contains(t),
    decreases entries.len(),
{
    let d = entries.drop_last();
    let a = targets_below(d);
    let b = own_target(entries.last());
    let c = targets_below(entries[entries.len() - 1].commands@);
    let s = targets_below(entries);
    assert(s == a + (b + c));
    if i < d.len() {
        assert(d[i] == entries[i]);
        law_groups_stand_for_all_below(d, i, t);
        let k = choose|k: int| 0 <= k < a.len() && a[k] == t;
        assert(s[k] == t);
    } else if b.contains(t) {
        let k = choose|k: int| 0 <= k < b.len() && b[k] == t;
        assert(s[a.len() + k] == t);
    } else {
        let k = choose|k: int| 0 <= k < c.len() && c[k] == t;
        assert(s[a.len() + b.len() + k] == t);
    }
}

/// The target of the selected line, and of each line nested below it, is among those that it stands
/// for.
pub proof fn law_lines_stand_for_what_is_nested(lines: Seq<MenuLine>, s: SelectedLine, j: int, t: TargetView)
    requires
        s.index < lines.len(),
        s.group is None,
        s.index <= j < lines.len(),
        line_targets(lines[j]).contains(t),
        j > s.index ==> s.has_children && forall|k: int|
            s.index < k <= j ==> (#[trigger] lines[k]).level > lines[s.index as int].level,
    ensures
        selected_targets(lines, s).contains(t),
{
    let i = s.index as int;
    let a = line_targets(lines[i]);
    let r = selected_targets(lines, s);
    if j == i {
        let k = choose|k: int| 0 <= k < a.len() && a[k] == t;
        assert(r[k] == t);
    } else {
        lemma_nested(lines, i + 1, lines[i].level, j, t);
        let b = nested_targets(lines, i + 1, lines[i].level);
        let k = choose|k: int| 0 <= k < b.len() && b[k] == t;
        assert(r[a.len() + k] == t);
    }
}

proof fn lemma_nested(lines: Seq<MenuLine>, i: int, level: usize, j: int, t: TargetView)
    requires
        0 <= i <= j < lines.len(),
        line_targets(lines[j]).contains(t),
        forall|k: int| i <= k <= j ==> (#[trigger] lines[k]).level > level,
    ensures
        nested_targets(lines, i, level).contains(t),
    decreases j - i,
{
    let a = line_targets(lines[i]);
    let b = nested_targets(lines, i + 1, level);
    let r = nested_targets(lines, i, level);
    assert(r == a + b);
    if i == j {
        let k = choose|k: int| 0 <= k < a.len() && a[k] == t;
        assert(r[k] == t);
    } else {
        lemma_nested(lines, i + 1, level, j, t);
        let k = choose|k: int| 0 <= k < b.len() && b[k] == t;
        assert(r[a.len() + k] == t);
    }
}

/// A line stands for nothing that is not nested below it.
pub proof fn law_nesting_ends_at_the_next_line(lines: Seq<MenuLine>, i: int, level: usize)
    ensures
        0 <= i < lines.len() && lines[i].level <= level ==> nested_targets(lines, i, level).len() == 0,
        i >= lines.len() ==> nested_targets(lines, i, level).len() == 0,
{
}

/// A target with a name means the pods of its namespace whose names hold it; one with a label means
/// those whose names hold the label's value; one with neither means all of its namespace, and one with
/// nothing none.
pub proof fn law_targets_mean_their_pods(
    t: TargetView,
    pod: Seq<char>,
    namespace: Seq<char>,
    key: Seq<char>,
    value: Seq<char>,
)
    requires
        t.namespace.len() == 0 || t.namespace == namespace,
    ensures
        t.pod_name.len() > 0 ==> (target_matches(t, pod, namespace) <==> has_sub(pod, t.pod_name)),
        t.pod_name.len() == 0 && t.selector == key.push('=') + value && !key.contains('=')
            && !t.selector.contains(',') && trimmed(t.selector) == t.selector ==> (target_matches(
            t,
            pod,
            namespace,
        ) <==> has_sub(pod, value)),
        t.pod_name.len() == 0 && t.selector.len() == 0 ==> (target_matches(t, pod, namespace)
            <==> t.namespace == namespace && namespace.len() > 0),
{
    let s = key.push('=') + value;
    if t.pod_name.len() == 0 && t.selector == s && !key.contains('=') && !s.contains(',') && trimmed(s)
        == s {
        crate::text::lemma_pieces_single(s, ',');
        assert(pieces(s, ',') =~= seq![s]);
        assert forall|j: int| 0 <= j < key.len() implies s[j] != '=' by {
            assert(key.contains(key[j]));
        }
        crate::text::lemma_index_of_is(s, '=', key.len() as int);
        assert(s.skip(key.len() as int + 1) =~= value);
        assert(pieces(s, ',')[0] == s);
    }
}

} // verus!
