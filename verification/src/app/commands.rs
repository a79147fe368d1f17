//! Commands: finding them, filling in their placeholders, where they run, and what they light up.

use vstd::prelude::*;
use crate::app::events::{AppMode, ClusterAction, FocusArea, InputState, InputView};
use crate::text::{
    add_once, begins, chars_of, ends, has_sub, joined_once, law_joining_once_repeats_nothing,
    law_replacing_goes_left_to_right, lemma_pieces_head, lemma_pieces_single, lower, lowered, no_texts,
    occurs_at, opt_view, pieces, replace, replaced, replaced_from, same, split, string_of_range, trim,
    trimmed, views,
};

verus! {

/// Where a command runs.
#[derive(Clone, Debug)]
pub enum ExecutionTarget {
    Host,
    Docker { container: String },
    Kubernetes { namespace: String, selector: String, pod_name: String, container: String },
}

/// What a command runs. `input` holds the prompts of its placeholders.
#[derive(Clone, Debug)]
pub struct ExecSpec {
    pub target: ExecutionTarget,
    pub workdir: String,
    pub cmd: String,
    pub input: Vec<(String, String)>,
}

/// A command, or a group of commands.
#[derive(Debug)]
pub struct CommandEntry {
    pub name: String,
    pub execution: Option<ExecSpec>,
    pub commands: Vec<CommandEntry>,
}

// ---------------------------------------------------------------------------
// Finding a command
// ---------------------------------------------------------------------------

/// Whether a name is meant by a part of a path: surrounding white space and the case of ASCII
/// letters do not count.
pub open spec fn named(name: Seq<char>, part: Seq<char>) -> bool {
    lowered(name) == lowered(trimmed(part))
}

/// The first entry that a part of a path means.
pub open spec fn first_named(entries: Seq<CommandEntry>, part: Seq<char>) -> Option<CommandEntry>
    decreases entries.len(),
{
    if entries.len() == 0 {
        None
    } else if named(entries[0].name@, part) {
        Some(entries[0])
    } else {
        first_named(entries.skip(1), part)
    }
}

/// The entry that a path leads to from `entries` on.
pub open spec fn entry_at(entries: Seq<CommandEntry>, path: Seq<Seq<char>>) -> Option<CommandEntry>
    decreases path.len(),
{
    if path.len() == 0 {
        None
    } else {
        match first_named(entries, path[0]) {
            None => None,
            Some(e) => if path.len() == 1 {
                Some(e)
            } else {
                entry_at(e.commands@, path.skip(1))
            },
        }
    }
}

/// The command at a path `Group/.../Command`: a group alone is none.
pub open spec fn command_at(groups: Seq<CommandEntry>, path: Seq<char>) -> Option<CommandEntry> {
    let parts = pieces(path, '/');
    match first_named(groups, parts[0]) {
        None => None,
        Some(g) => entry_at(g.commands@, parts.skip(1)),
    }
}

fn find_named<'a>(entries: &'a Vec<CommandEntry>, part: &str) -> (r: Option<&'a CommandEntry>)
    ensures
        match r {
            Some(e) => first_named(entries@, part@) == Some(*e),
            None => first_named(entries@, part@) is None,
        },
{
    let t = trim(part);
    let wanted = lower(t.as_str());
    let mut i: usize = 0;
    assert(entries@.skip(0) =~= entries@);
    while i < entries.len()
        invariant
            i <= entries@.len(),
            wanted@ == lowered(trimmed(part@)),
            first_named(entries@, part@) == first_named(entries@.skip(i as int), part@),
        decreases entries@.len() - i,
    {
        assert(entries@.skip(i as int)[0] == entries@[i as int]);
        assert(entries@.skip(i as int).skip(1) =~= entries@.skip(i + 1));
        let name = lower(entries[i].name.as_str());
        if same(name.as_str(), wanted.as_str()) {
            return Some(&entries[i]);
        }
        i = i + 1;
    }
    None
}

/// The command at a path such as `Group/Command` or `Group/Subgroup/Command`.
pub fn find_command_by_path<'a>(groups: &'a Vec<CommandEntry>, path: &str) -> (r: Option<
    &'a CommandEntry,
>)
    ensures
        match r {
            Some(e) => command_at(groups@, path@) == Some(*e),
            None => command_at(groups@, path@) is None,
        },
{
    let parts = split(path, '/');
    let ghost all = views(parts@);
    assert(all[0] == parts@[0]@);
    match find_named(groups, parts[0].as_str()) {
        None => None,
        Some(group) => {
            let mut commands = &group.commands;
            let mut i: usize = 1;
            while i < parts.len()
                invariant
                    1 <= i <= parts@.len(),
                    all == views(parts@),
                    all == pieces(path@, '/'),
                    command_at(groups@, path@) == entry_at(commands@, all.skip(i as int)),
                decreases parts@.len() - i,
            {
                assert(all.skip(i as int)[0] == parts@[i as int]@);
                assert(all.skip(i as int).skip(1) =~= all.skip(i + 1));
                match find_named(commands, parts[i].as_str()) {
                    None => {
                        return None;
                    },
                    Some(found) => {
                        if i == parts.len() - 1 {
                            return Some(found);
                        }
                        commands = &found.commands;
                    },
                }
                i = i + 1;
            }
            None
        },
    }
}

/// Case and surrounding white space of the parts of a path make no difference.
pub proof fn law_paths_ignore_case(entries: Seq<CommandEntry>, a: Seq<Seq<char>>, b: Seq<Seq<char>>)
    requires
        a.len() == b.len(),
        forall|i: int| 0 <= i < a.len() ==> lowered(trimmed(#[trigger] a[i])) == lowered(trimmed(b[i])),
    ensures
        entry_at(entries, a) == entry_at(entries, b),
    decreases a.len(),
{
    if a.len() > 0 {
        assert(lowered(trimmed(a[0])) == lowered(trimmed(b[0])));
        lemma_first_named_same(entries, a[0], b[0]);
        if let Some(e) = first_named(entries, a[0]) {
            assert forall|i: int| 0 <= i < a.skip(1).len() implies lowered(
                trimmed(#[trigger] a.skip(1)[i]),
            ) == lowered(trimmed(b.skip(1)[i])) by {
                assert(a.skip(1)[i] == a[i + 1]);
                assert(b.skip(1)[i] == b[i + 1]);
            }
            law_paths_ignore_case(e.commands@, a.skip(1), b.skip(1));
        }
    }
}

proof fn lemma_first_named_same(entries: Seq<CommandEntry>, a: Seq<char>, b: Seq<char>)
    requires
        lowered(trimmed(a)) == lowered(trimmed(b)),
    ensures
        first_named(entries, a) == first_named(entries, b),
    decreases entries.len(),
{
    if entries.len() > 0 {
        lemma_first_named_same(entries.skip(1), a, b);
    }
}

// ---------------------------------------------------------------------------
// Placeholders
// ---------------------------------------------------------------------------

/// The text of a placeholder for `key`.
pub open spec fn placeholder(key: Seq<char>) -> Seq<char> {
    "@"@ + key
}

/// `s` with the placeholders of `values` filled in, one after another.
pub open spec fn filled(s: Seq<char>, values: Seq<(String, String)>) -> Seq<char>
    decreases values.len(),
{
    if values.len() == 0 {
        s
    } else {
        let v = values.last();
        replaced(filled(s, values.drop_last()), placeholder(v.0@), v.1@)
    }
}

/// `s` with the placeholders of `values` filled in, one after another.
pub fn fill(s: &str, values: &Vec<(String, String)>) -> (r: String)
    ensures
        r@ == filled(s@, values@),
{
    let mut out = s.to_owned();
    let mut i: usize = 0;
    while i < values.len()
        invariant
            i <= values@.len(),
            out@ == filled(s@, values@.take(i as int)),
        decreases values@.len() - i,
    {
        assert(values@.take(i + 1).drop_last() =~= values@.take(i as int));
        let mut pattern = "@".to_owned();
        pattern.append(values[i].0.as_str());
        proof {
            reveal_strlit("@");
        }
        out = replace(out.as_str(), pattern.as_str(), values[i].1.as_str());
        i = i + 1;
    }
    assert(values@.take(i as int) =~= values@);
    out
}

/// A target with its placeholders filled in.
pub open spec fn target_filled(t: ExecutionTarget, values: Seq<(String, String)>, r: ExecutionTarget) -> bool {
    match t {
        ExecutionTarget::Host => r is Host,
        ExecutionTarget::Docker { container } => r matches ExecutionTarget::Docker { container: c }
            && c@ == filled(container@, values),
        ExecutionTarget::Kubernetes { namespace, selector, pod_name, container } => {
            &&& r matches ExecutionTarget::Kubernetes {
                namespace: n,
                selector: s,
                pod_name: p,
                container: c,
            }
            &&& n@ == filled(namespace@, values)
            &&& s@ == filled(selector@, values)
            &&& p@ == filled(pod_name@, values)
            &&& c@ == filled(container@, values)
        },
    }
}

/// What a command runs once the values of its form are known: target, working directory and
/// command line are filled in.
pub fn fill_exec(e: &ExecSpec, values: &Vec<(String, String)>) -> (r: ExecSpec)
    ensures
        target_filled(e.target, values@, r.target),
        r.workdir@ == filled(e.workdir@, values@),
        r.cmd@ == filled(e.cmd@, values@),
        pair_views(r.input@) == pair_views(e.input@),
{
    let target = match &e.target {
        ExecutionTarget::Host => ExecutionTarget::Host,
        ExecutionTarget::Docker { container } => ExecutionTarget::Docker {
            container: fill(container.as_str(), values),
        },
        ExecutionTarget::Kubernetes { namespace, selector, pod_name, container } => {
            ExecutionTarget::Kubernetes {
                namespace: fill(namespace.as_str(), values),
                selector: fill(selector.as_str(), values),
                pod_name: fill(pod_name.as_str(), values),
                container: fill(container.as_str(), values),
            }
        },
    };
    ExecSpec {
        target,
        workdir: fill(e.workdir.as_str(), values),
        cmd: fill(e.cmd.as_str(), values),
        input: copy_pairs(&e.input),
    }
}

/// Whether a character may stand in the name of a placeholder.
pub open spec fn name_char(c: char) -> bool {
    ('a' <= c && c <= 'z') || ('A' <= c && c <= 'Z') || ('0' <= c && c <= '9') || c == '_'
}

/// Where the name that begins at `i` ends.
pub open spec fn name_end(s: Seq<char>, i: int) -> int
    decreases s.len() - i,
{
    if i < 0 || i >= s.len() || !name_char(s[i]) {
        i
    } else {
        name_end(s, i + 1)
    }
}

/// The names of the placeholders in a text, from `i` on: what follows an at sign.
pub open spec fn names_from(s: Seq<char>, i: int) -> Seq<Seq<char>>
    decreases s.len() - i,
{
    if i < 0 || i >= s.len() {
        Seq::empty()
    } else if s[i] == '@' && i + 1 < s.len() && name_char(s[i + 1]) {
        seq![s.subrange(i + 1, name_end(s, i + 1))] + names_from(s, i + 1)
    } else {
        names_from(s, i + 1)
    }
}

/// The names of the placeholders of a target.
pub open spec fn target_names(t: ExecutionTarget) -> Seq<Seq<char>> {
    match t {
        ExecutionTarget::Host => Seq::empty(),
        ExecutionTarget::Docker { container } => names_from(container@, 0),
        ExecutionTarget::Kubernetes { namespace, selector, pod_name, container } => names_from(
            namespace@,
            0,
        ) + names_from(selector@, 0) + names_from(pod_name@, 0) + names_from(container@, 0),
    }
}

/// The names of the placeholders of what a command runs, each once: those of its target, of its
/// working directory and of its command line.
pub open spec fn exec_names(e: ExecSpec) -> Seq<Seq<char>> {
    joined_once(
        Seq::empty(),
        target_names(e.target) + names_from(e.workdir@, 0) + names_from(e.cmd@, 0),
    )
}

/// Adds the names of the placeholders in a text to those that are known.
fn add_names(known: &mut Vec<String>, text: &str, before: Ghost<Seq<Seq<char>>>)
    requires
        views(old(known)@) == joined_once(Seq::empty(), before@),
    ensures
        views(final(known)@) == joined_once(Seq::empty(), before@ + names_from(text@, 0)),
{
    let v = chars_of(text);
    let ghost mut seen = before@;
    let mut i: usize = 0;
    assert(seen + names_from(v@, 0) =~= before@ + names_from(text@, 0));
    while i < v.len()
        invariant
            i <= v@.len(),
            views(known@) == joined_once(Seq::empty(), seen),
            seen + names_from(v@, i as int) == before@ + names_from(text@, 0),
        decreases v@.len() - i,
    {
        if v[i] == '@' && i + 1 < v.len() && is_name_char(v[i + 1]) {
            let mut k: usize = i + 1;
            while k < v.len() && is_name_char(v[k])
                invariant
                    i + 1 <= k <= v@.len(),
                    name_end(v@, i + 1) == name_end(v@, k as int),
                decreases v@.len() - k,
            {
                k = k + 1;
            }
            let name = string_of_range(&v, i + 1, k);
            let ghost one = v@.subrange(i + 1, k as int);
            add_once(known, name.as_str());
            proof {
                assert(seen.push(one).drop_last() =~= seen);
                assert(seen.push(one).last() == one);
                assert(seen.push(one) + names_from(v@, i + 1) =~= seen + (seq![one] + names_from(
                    v@,
                    i + 1,
                )));
                seen = seen.push(one);
            }
        }
        i = i + 1;
    }
    assert(seen + names_from(v@, i as int) =~= seen);
}

fn is_name_char(c: char) -> (r: bool)
    ensures
        r == name_char(c),
{
    ('a' <= c && c <= 'z') || ('A' <= c && c <= 'Z') || ('0' <= c && c <= '9') || c == '_'
}

/// The names of the placeholders of what a command runs.
pub fn get_exec_placeholders(e: &ExecSpec) -> (r: Vec<String>)
    ensures
        views(r@) == exec_names(*e),
{
    let mut known = no_texts();
    let ghost none = Seq::<Seq<char>>::empty();
    let ghost mut seen = none;
    assert(views(known@) =~= joined_once(none, none));
    match &e.target {
        ExecutionTarget::Host => {},
        ExecutionTarget::Docker { container } => {
            add_names(&mut known, container.as_str(), Ghost(seen));
            proof {
                seen = seen + names_from(container@, 0);
            }
        },
        ExecutionTarget::Kubernetes { namespace, selector, pod_name, container } => {
            add_names(&mut known, namespace.as_str(), Ghost(seen));
            proof {
                seen = seen + names_from(namespace@, 0);
            }
            add_names(&mut known, selector.as_str(), Ghost(seen));
            proof {
                seen = seen + names_from(selector@, 0);
            }
            add_names(&mut known, pod_name.as_str(), Ghost(seen));
            proof {
                seen = seen + names_from(pod_name@, 0);
            }
            add_names(&mut known, container.as_str(), Ghost(seen));
            proof {
                seen = seen + names_from(container@, 0);
            }
        },
    }
    assert(seen =~= target_names(e.target));
    add_names(&mut known, e.workdir.as_str(), Ghost(seen));
    add_names(&mut known, e.cmd.as_str(), Ghost(seen + names_from(e.workdir@, 0)));
    known
}

/// The prompt that is configured for a placeholder.
pub open spec fn configured_prompt(input: Seq<(String, String)>, key: Seq<char>) -> Option<Seq<char>>
    decreases input.len(),
{
    if input.len() == 0 {
        None
    } else if input[0].0@ == key {
        Some(input[0].1@)
    } else {
        configured_prompt(input.skip(1), key)
    }
}

/// The prompt of a placeholder: the configured one, or a general one.
pub open spec fn prompt_for(input: Seq<(String, String)>, key: Seq<char>) -> Seq<char> {
    match configured_prompt(input, key) {
        Some(p) => p,
        None => "Enter "@ + key + ":"@,
    }
}

/// The prompt of a placeholder.
pub fn prompt_of(input: &Vec<(String, String)>, key: &str) -> (r: String)
    ensures
        r@ == prompt_for(input@, key@),
{
    let mut i: usize = 0;
    assert(input@.skip(0) =~= input@);
    while i < input.len()
        invariant
            i <= input@.len(),
            configured_prompt(input@, key@) == configured_prompt(input@.skip(i as int), key@),
        decreases input@.len() - i,
    {
        assert(input@.skip(i as int)[0] == input@[i as int]);
        assert(input@.skip(i as int).skip(1) =~= input@.skip(i + 1));
        if same(input[i].0.as_str(), key) {
            return input[i].1.clone();
        }
        i = i + 1;
    }
    let mut s = "Enter ".to_owned();
    s.append(key);
    s.append(":");
    s
}

/// Pairs of texts, as values.
pub open spec fn pair_views(v: Seq<(String, String)>) -> Seq<(Seq<char>, Seq<char>)> {
    Seq::new(v.len(), |i: int| ((v[i].0)@, (v[i].1)@))
}

/// The fields of the form for what a command runs: its placeholders with their prompts.
pub open spec fn form_fields(e: ExecSpec) -> Seq<(Seq<char>, Seq<char>)> {
    let names = exec_names(e);
    Seq::new(names.len(), |i: int| (names[i], prompt_for(e.input@, names[i])))
}

/// The fields of the form for what a command runs.
fn fields_of(e: &ExecSpec) -> (r: Vec<(String, String)>)
    ensures
        pair_views(r@) == form_fields(*e),
{
    let names = get_exec_placeholders(e);
    let mut out: Vec<(String, String)> = Vec::new();
    let mut i: usize = 0;
    while i < names.len()
        invariant
            i <= names@.len(),
            views(names@) == exec_names(*e),
            out@.len() == i,
            forall|j: int|
                0 <= j < i ==> (#[trigger] out@[j]).0@ == names@[j]@ && out@[j].1@ == prompt_for(
                    e.input@,
                    names@[j]@,
                ),
        decreases names@.len() - i,
    {
        out.push((names[i].clone(), prompt_of(&e.input, names[i].as_str())));
        i = i + 1;
    }
    assert(names@.len() == exec_names(*e).len());
    assert forall|j: int| 0 <= j < out@.len() implies #[trigger] pair_views(out@)[j] == form_fields(
        *e,
    )[j] by {
        assert(views(names@)[j] == names@[j]@);
        assert(out@[j].0@ == names@[j]@);
    }
    assert(pair_views(out@) =~= form_fields(*e));
    out
}

/// Whether two entries hold the same.
pub open spec fn same_entry(a: CommandEntry, b: CommandEntry) -> bool
    decreases a,
{
    &&& a.name@ == b.name@
    &&& match (a.execution, b.execution) {
        (None, None) => true,
        (Some(x), Some(y)) => {
            &&& same_target(x.target, y.target)
            &&& x.workdir@ == y.workdir@
            &&& x.cmd@ == y.cmd@
            &&& pair_views(x.input@) == pair_views(y.input@)
        },
        _ => false,
    }
    &&& a.commands@.len() == b.commands@.len()
    &&& forall|i: int|
        0 <= i < a.commands@.len() ==> same_entry(#[trigger] a.commands@[i], b.commands@[i])
}

/// Whether two targets are the same.
pub open spec fn same_target(a: ExecutionTarget, b: ExecutionTarget) -> bool {
    match a {
        ExecutionTarget::Host => b is Host,
        ExecutionTarget::Docker { container } => b matches ExecutionTarget::Docker { container: c }
            && c@ == container@,
        ExecutionTarget::Kubernetes { namespace, selector, pod_name, container } => {
            &&& b matches ExecutionTarget::Kubernetes {
                namespace: n,
                selector: s,
                pod_name: p,
                container: c,
            }
            &&& n@ == namespace@
            &&& s@ == selector@
            &&& p@ == pod_name@
            &&& c@ == container@
        },
    }
}

/// Whether two lists of entries hold the same.
pub open spec fn same_entries(a: Seq<CommandEntry>, b: Seq<CommandEntry>) -> bool {
    a.len() == b.len() && forall|i: int| 0 <= i < a.len() ==> same_entry(#[trigger] a[i], b[i])
}

fn copy_pairs(v: &Vec<(String, String)>) -> (r: Vec<(String, String)>)
    ensures
        pair_views(r@) == pair_views(v@),
{
    let mut out: Vec<(String, String)> = Vec::new();
    let mut i: usize = 0;
    while i < v.len()
        invariant
            i <= v@.len(),
            out@.len() == i,
            forall|j: int|
                0 <= j < i ==> (#[trigger] out@[j]).0@ == v@[j].0@ && out@[j].1@ == v@[j].1@,
        decreases v@.len() - i,
    {
        out.push((v[i].0.clone(), v[i].1.clone()));
        i = i + 1;
    }
    assert(pair_views(out@) =~= pair_views(v@));
    out
}

fn copy_target(t: &ExecutionTarget) -> (r: ExecutionTarget)
    ensures
        same_target(r, *t),
{
    match t {
        ExecutionTarget::Host => ExecutionTarget::Host,
        ExecutionTarget::Docker { container } => ExecutionTarget::Docker {
            container: container.clone(),
        },
        ExecutionTarget::Kubernetes { namespace, selector, pod_name, container } => {
            ExecutionTarget::Kubernetes {
                namespace: namespace.clone(),
                selector: selector.clone(),
                pod_name: pod_name.clone(),
                container: container.clone(),
            }
        },
    }
}

fn copy_entry(e: &CommandEntry) -> (r: CommandEntry)
    ensures
        same_entry(r, *e),
    decreases e,
{
    let execution = match &e.execution {
        None => None,
        Some(x) => Some(
            ExecSpec {
                target: copy_target(&x.target),
                workdir: x.workdir.clone(),
                cmd: x.cmd.clone(),
                input: copy_pairs(&x.input),
            },
        ),
    };
    let mut commands: Vec<CommandEntry> = Vec::new();
    let mut i: usize = 0;
    while i < e.commands.len()
        invariant
            i <= e.commands@.len(),
            commands@.len() == i,
            forall|j: int| 0 <= j < i ==> same_entry(#[trigger] commands@[j], e.commands@[j]),
        decreases e.commands@.len() - i,
    {
        commands.push(copy_entry(&e.commands[i]));
        i = i + 1;
    }
    CommandEntry { name: e.name.clone(), execution, commands }
}

/// A command with the values of its form filled in: its target, its working directory and its
/// command line have changed, its name and its entries are kept.
pub open spec fn filled_command(
    cmd: CommandEntry,
    values: Seq<(String, String)>,
    r: CommandEntry,
) -> bool {
    &&& r.name@ == cmd.name@
    &&& same_entries(r.commands@, cmd.commands@)
    &&& match (cmd.execution, r.execution) {
        (None, None) => true,
        (Some(e), Some(f)) => {
            &&& target_filled(e.target, values, f.target)
            &&& f.workdir@ == filled(e.workdir@, values)
            &&& f.cmd@ == filled(e.cmd@, values)
            &&& pair_views(f.input@) == pair_views(e.input@)
        },
        _ => false,
    }
}

/// A command with the values of its form filled in.
pub fn fill_command(cmd: &CommandEntry, values: &Vec<(String, String)>) -> (r: CommandEntry)
    ensures
        filled_command(*cmd, values@, r),
{
    let copy = copy_entry(cmd);
    let execution = match &cmd.execution {
        None => None,
        Some(e) => Some(fill_exec(e, values)),
    };
    CommandEntry { name: copy.name, execution, commands: copy.commands }
}

// ---------------------------------------------------------------------------
// Running a command
// ---------------------------------------------------------------------------

/// What a command leads to.
#[derive(Debug)]
pub enum Dispatch {
    /// It runs nothing.
    Nothing,
    /// Ask for the values of its placeholders first: their names and prompts.
    Ask { fields: Vec<(String, String)> },
    /// There is no connection to the cluster.
    NotConnected,
    /// Find a pod and open a shell in it. Empty selectors and names are absent.
    Pod { namespace: String, selector: Option<String>, pod_name: Option<String>, container: String },
    /// Run it on this machine, under this title.
    Host { title: String },
    /// Run it in a container, under this title.
    Docker { container: String, title: String },
}

/// A text, or nothing where it is empty.
pub open spec fn non_empty(s: Seq<char>) -> Option<Seq<char>> {
    if s.len() == 0 {
        None
    } else {
        Some(s)
    }
}

/// A text, or nothing where it is empty.
pub fn some_text(s: &str) -> (r: Option<String>)
    ensures
        opt_view(r) == non_empty(s@),
{
    if s.is_empty() {
        None
    } else {
        Some(s.to_owned())
    }
}

/// What dispatching a command whose placeholders are filled in leads to.
pub open spec fn dispatched(cmd: CommandEntry, connected: bool, r: Dispatch) -> bool {
    match cmd.execution {
        None => r is Nothing,
        Some(e) => match e.target {
            ExecutionTarget::Host => r matches Dispatch::Host { title } && title@ == "Host: "@
                + cmd.name@,
            ExecutionTarget::Docker { container } => {
                &&& r matches Dispatch::Docker { container: c, title }
                &&& c@ == container@
                &&& title@ == "Docker ["@ + container@ + "]: "@ + cmd.name@
            },
            ExecutionTarget::Kubernetes { namespace, selector, pod_name, container } => if connected {
                &&& r matches Dispatch::Pod { namespace: n, selector: s, pod_name: p, container: c }
                &&& n@ == namespace@
                &&& opt_view(s) == non_empty(selector@)
                &&& opt_view(p) == non_empty(pod_name@)
                &&& c@ == container@
            } else {
                r is NotConnected
            },
        },
    }
}

/// The state after a command was sent to where it runs: commands that print open the output.
pub open spec fn after_dispatch(st: InputView, d: Dispatch) -> InputView {
    if d is Host || d is Docker {
        InputView { mode: AppMode::OutputPopup, is_executing: true, cancellable: true, ..st }
    } else {
        st
    }
}

impl InputState {
    /// The state while a command's output is shown.
    fn start_popup_command(&mut self)
        ensures
            final(self)@ == (InputView {
                mode: AppMode::OutputPopup,
                is_executing: true,
                cancellable: true,
                ..old(self)@
            }),
    {
        self.mode = AppMode::OutputPopup;
        self.is_executing = true;
        self.cancellable = true;
    }

    /// Sends a command to where it runs; commands that print open the output.
    pub fn dispatch_command(&mut self, cmd: &CommandEntry, connected: bool) -> (r: Dispatch)
        ensures
            dispatched(*cmd, connected, r),
            final(self)@ == after_dispatch(old(self)@, r),
    {
        match &cmd.execution {
            None => Dispatch::Nothing,
            Some(e) => match &e.target {
                ExecutionTarget::Host => {
                    self.start_popup_command();
                    let mut title = "Host: ".to_owned();
                    title.append(cmd.name.as_str());
                    Dispatch::Host { title }
                },
                ExecutionTarget::Docker { container } => {
                    self.start_popup_command();
                    let mut title = "Docker [".to_owned();
                    title.append(container.as_str());
                    title.append("]: ");
                    title.append(cmd.name.as_str());
                    Dispatch::Docker { container: container.clone(), title }
                },
                ExecutionTarget::Kubernetes { namespace, selector, pod_name, container } => {
                    if connected {
                        Dispatch::Pod {
                            namespace: namespace.clone(),
                            selector: some_text(selector.as_str()),
                            pod_name: some_text(pod_name.as_str()),
                            container: container.clone(),
                        }
                    } else {
                        Dispatch::NotConnected
                    }
                },
            },
        }
    }

    /// Starts a command: one with placeholders opens the form first.
    pub fn execute_command(&mut self, cmd: &CommandEntry, connected: bool) -> (r: Dispatch)
        ensures
            r is Nothing <==> cmd.execution is None,
            r is Ask <==> cmd.execution is Some && exec_names(cmd.execution->0).len() > 0,
            final(self).pending_command <==> old(self).pending_command || r is Ask,
            final(self).is_executing <==> old(self).is_executing || r is Host || r is Docker,
            match cmd.execution {
                None => r is Nothing && final(self)@ == old(self)@,
                Some(e) => if exec_names(e).len() > 0 {
                    &&& r matches Dispatch::Ask { fields } && pair_views(fields@) == form_fields(e)
                    &&& final(self)@ == (InputView {
                        mode: AppMode::Input,
                        pending_command: true,
                        ..old(self)@
                    })
                } else {
                    dispatched(*cmd, connected, r) && final(self)@ == after_dispatch(old(self)@, r)
                },
            },
    {
        match &cmd.execution {
            None => Dispatch::Nothing,
            Some(e) => {
                let fields = fields_of(e);
                assert(form_fields(*e).len() == exec_names(*e).len());
                if fields.len() > 0 {
                    self.pending_command = true;
                    self.mode = AppMode::Input;
                    Dispatch::Ask { fields }
                } else {
                    self.dispatch_command(cmd, connected)
                }
            },
        }
    }

    /// The form of the command that waits for it was submitted: the command with the values filled
    /// in, and what it leads to.
    pub fn submit_input(
        &mut self,
        cmd: &CommandEntry,
        values: &Vec<(String, String)>,
        connected: bool,
    ) -> (r: Option<(CommandEntry, Dispatch)>)
        ensures
            r is Some <==> old(self).pending_command,
            !final(self).pending_command,
            r matches Some(p) ==> (p.1 is Host <==> cmd.execution is Some && cmd.execution->0.target is Host),
            r matches Some(p) ==> (p.1 is Docker <==> cmd.execution is Some && cmd.execution->0.target
                is Docker),
            !old(self).pending_command ==> r is None && final(self)@ == old(self)@,
            old(self).pending_command ==> {
                &&& r matches Some(p)
                &&& filled_command(*cmd, values@, p.0)
                &&& dispatched(p.0, connected, p.1)
                &&& final(self)@ == after_dispatch(
                    InputView { mode: AppMode::Normal, pending_command: false, ..old(self)@ },
                    p.1,
                )
            },
    {
        if !self.pending_command {
            return None;
        }
        self.pending_command = false;
        self.mode = AppMode::Normal;
        let filled = fill_command(cmd, values);
        let d = self.dispatch_command(&filled, connected);
        Some((filled, d))
    }
}

/// A command line that first changes to a directory, where one is given.
pub open spec fn in_directory(workdir: Seq<char>, command: Seq<char>) -> Seq<char> {
    if workdir.len() == 0 {
        command
    } else {
        "cd "@ + workdir + " && "@ + command
    }
}

/// A command line that first changes to a directory, where one is given.
pub fn command_in_directory(workdir: &str, command: &str) -> (r: String)
    ensures
        r@ == in_directory(workdir@, command@),
{
    if workdir.is_empty() {
        command.to_owned()
    } else {
        let mut s = "cd ".to_owned();
        s.append(workdir);
        s.append(" && ");
        s.append(command);
        s
    }
}

/// What a host command came to: exit code zero is success, no code counts as -1.
pub fn host_command_result(code: Option<i32>) -> (r: Result<(), String>)
    ensures
        r is Ok <==> code == Some(0i32),
        r matches Err(e) ==> e@ == "Host command exited with code "@ + crate::number::signed_decimal(
            match code {
                Some(c) => c as int,
                None => -1,
            },
        ),
{
    if code == Some(0) {
        Ok(())
    } else {
        let c: i64 = match code {
            Some(c) => c as i64,
            None => -1,
        };
        let mut s = "Host command exited with code ".to_owned();
        s.append(crate::number::i64_text(c).as_str());
        Err(s)
    }
}

// ---------------------------------------------------------------------------
// Cluster actions and the command palette
// ---------------------------------------------------------------------------

/// What a cluster action leads to.
#[derive(Debug, Clone, Copy, PartialEq, Eq, Structural)]
pub enum ActionStart {
    Diagnostics,
    Preflight,
    ConfirmDestroy,
    ConfirmDeleteSnapshots,
    Run(ClusterAction),
}

/// What a cluster action leads to: the destructive ones ask first.
pub open spec fn action_start(a: ClusterAction) -> ActionStart {
    match a {
        ClusterAction::Diagnostics => ActionStart::Diagnostics,
        ClusterAction::PreflightCheck => ActionStart::Preflight,
        ClusterAction::Destroy => ActionStart::ConfirmDestroy,
        ClusterAction::DeleteSnapshots => ActionStart::ConfirmDeleteSnapshots,
        _ => ActionStart::Run(a),
    }
}

/// The state after a cluster action was asked for.
pub open spec fn after_action(st: InputView, a: ClusterAction) -> InputView {
    match action_start(a) {
        ActionStart::Diagnostics => InputView { mode: AppMode::Diagnostics, ..st },
        ActionStart::Preflight => InputView { mode: AppMode::Diagnostics, ..st },
        ActionStart::Run(_) => InputView {
            mode: AppMode::OutputPopup,
            is_executing: true,
            cancellable: true,
            ..st
        },
        _ => InputView { mode: AppMode::ConfirmDestroy, pending_cluster_action: Some(a), ..st },
    }
}

impl InputState {
    /// Starts a cluster action, or asks for its confirmation.
    pub fn execute_cluster_action(&mut self, a: ClusterAction) -> (r: ActionStart)
        ensures
            r == action_start(a),
            final(self)@ == after_action(old(self)@, a),
    {
        match a {
            ClusterAction::Diagnostics => {
                self.mode = AppMode::Diagnostics;
                ActionStart::Diagnostics
            },
            ClusterAction::PreflightCheck => {
                self.mode = AppMode::Diagnostics;
                ActionStart::Preflight
            },
            ClusterAction::Destroy => {
                self.pending_cluster_action = Some(a);
                self.mode = AppMode::ConfirmDestroy;
                ActionStart::ConfirmDestroy
            },
            ClusterAction::DeleteSnapshots => {
                self.pending_cluster_action = Some(a);
                self.mode = AppMode::ConfirmDestroy;
                ActionStart::ConfirmDeleteSnapshots
            },
            _ => {
                self.start_popup_command();
                ActionStart::Run(a)
            },
        }
    }
}

/// Title and text of the question before a destructive action.
pub fn confirmation_text(s: ActionStart) -> (r: Option<(&'static str, &'static str)>)
    ensures
        r is Some <==> s is ConfirmDestroy || s is ConfirmDeleteSnapshots,
        match s {
            ActionStart::ConfirmDestroy => r matches Some(t) && t.0@ == "Destroy Cluster"@ && t.1@
                == "This will permanently destroy the cluster. This cannot be undone."@,
            ActionStart::ConfirmDeleteSnapshots => r matches Some(t) && t.0@ == "Delete Snapshots"@
                && t.1@
                == "This will remove all snapshot images. Next cluster start will be slower."@,
            _ => r is None,
        },
{
    match s {
        ActionStart::ConfirmDestroy => Some(
            (
                "Destroy Cluster",
                "This will permanently destroy the cluster. This cannot be undone.",
            ),
        ),
        ActionStart::ConfirmDeleteSnapshots => Some(
            (
                "Delete Snapshots",
                "This will remove all snapshot images. Next cluster start will be slower.",
            ),
        ),
        _ => None,
    }
}

/// An action that is asked for and then confirmed runs, and no other does.
pub proof fn law_asked_and_confirmed_runs(st: InputView, k: crate::app::events::KeyPress)
    requires
        k.code == crate::app::events::Key::Char('y'),
        k.action != crate::app::events::KeyAction::Cancel,
    ensures
        crate::app::events::key_step(after_action(st, ClusterAction::Destroy), k).1 == seq![
            crate::app::events::KeyEffect::RunClusterAction(ClusterAction::Destroy),
        ],
        crate::app::events::key_step(after_action(st, ClusterAction::DeleteSnapshots), k).1 == seq![
            crate::app::events::KeyEffect::RunClusterAction(ClusterAction::DeleteSnapshots),
        ],
{
}

/// A command of the palette.
#[derive(Debug, Clone)]
pub enum PaletteCommand {
    Custom(String),
    Cluster(ClusterAction),
    AppRefresh,
    AppUpdateHosts,
    AppHelp,
    AppQuit,
    NavFocusMenu,
    NavFocusActions,
    Other,
}

/// What a palette command leads to, beyond the state.
#[derive(Debug)]
pub enum PaletteStart {
    Nothing,
    Custom(String),
    Cluster(ActionStart),
    Refresh,
    UpdateHosts,
}

impl InputState {
    /// Runs a command of the palette.
    pub fn execute_palette_command(&mut self, c: PaletteCommand) -> (r: PaletteStart)
        ensures
            final(self).should_quit <==> old(self).should_quit || c is AppQuit,
            r is Custom <==> c is Custom,
            r is Cluster <==> c is Cluster,
            r is Refresh <==> c is AppRefresh,
            r is UpdateHosts <==> c is AppUpdateHosts,
            c is AppHelp ==> final(self).mode == AppMode::Help,
            c is NavFocusMenu ==> final(self).focus == FocusArea::Content,
            c is NavFocusActions ==> final(self).focus == FocusArea::ActionBar,
            match c {
                PaletteCommand::Custom(p) => r == PaletteStart::Custom(p) && final(self)@ == old(self)@,
                PaletteCommand::Cluster(a) => r == PaletteStart::Cluster(action_start(a))
                    && final(self)@ == after_action(old(self)@, a),
                PaletteCommand::AppRefresh => r is Refresh && final(self)@ == old(self)@,
                PaletteCommand::AppUpdateHosts => r is UpdateHosts && final(self)@ == (InputView {
                    mode: AppMode::OutputPopup,
                    is_executing: true,
                    ..old(self)@
                }),
                PaletteCommand::AppHelp => r is Nothing && final(self)@ == (InputView {
                    mode: AppMode::Help,
                    ..old(self)@
                }),
                PaletteCommand::AppQuit => r is Nothing && final(self)@ == (InputView {
                    should_quit: true,
                    ..old(self)@
                }),
                PaletteCommand::NavFocusMenu => r is Nothing && final(self)@ == (InputView {
                    focus: FocusArea::Content,
                    ..old(self)@
                }),
                PaletteCommand::NavFocusActions => r is Nothing && final(self)@ == (InputView {
                    focus: FocusArea::ActionBar,
                    ..old(self)@
                }),
                PaletteCommand::Other => r is Nothing && final(self)@ == old(self)@,
            },
    {
        match c {
            PaletteCommand::Custom(p) => PaletteStart::Custom(p),
            PaletteCommand::Cluster(a) => PaletteStart::Cluster(self.execute_cluster_action(a)),
            PaletteCommand::AppRefresh => PaletteStart::Refresh,
            PaletteCommand::AppUpdateHosts => {
                self.mode = AppMode::OutputPopup;
                self.is_executing = true;
                PaletteStart::UpdateHosts
            },
            PaletteCommand::AppHelp => {
                self.mode = AppMode::Help;
                PaletteStart::Nothing
            },
            PaletteCommand::AppQuit => {
                self.should_quit = true;
                PaletteStart::Nothing
            },
            PaletteCommand::NavFocusMenu => {
                self.focus = FocusArea::Content;
                PaletteStart::Nothing
            },
            PaletteCommand::NavFocusActions => {
                self.focus = FocusArea::ActionBar;
                PaletteStart::Nothing
            },
            PaletteCommand::Other => PaletteStart::Nothing,
        }
    }
}

// ---------------------------------------------------------------------------
// Enter and clicks
// ---------------------------------------------------------------------------

/// What is selected on the screen.
#[derive(Debug)]
pub struct Selection {
    pub action: Option<ClusterAction>,
    pub ingress_url: Option<String>,
    /// The selected menu item: whether it has children, and whether it has a command.
    pub item: Option<(bool, bool)>,
    pub pod_selected: bool,
}

/// What Enter leads to.
#[derive(Debug)]
pub enum Activation {
    Nothing,
    Cluster(ActionStart),
    OpenUrl(String),
    ToggleItem,
    RunItem,
    OpenContextMenu,
}

/// What a menu item leads to when it is activated.
pub open spec fn item_activation(item: Option<(bool, bool)>) -> Activation {
    match item {
        Some(i) => if i.0 {
            Activation::ToggleItem
        } else if i.1 {
            Activation::RunItem
        } else {
            Activation::Nothing
        },
        None => Activation::Nothing,
    }
}

fn activate_item(item: Option<(bool, bool)>) -> (r: Activation)
    ensures
        r == item_activation(item),
{
    match item {
        Some(i) => if i.0 {
            Activation::ToggleItem
        } else if i.1 {
            Activation::RunItem
        } else {
            Activation::Nothing
        },
        None => Activation::Nothing,
    }
}

/// A rectangle of the screen.
#[derive(Debug, Clone, Copy)]
pub struct Area {
    pub x: u16,
    pub y: u16,
    pub width: u16,
    pub height: u16,
}

/// Where the parts of the screen are.
#[derive(Debug, Clone, Copy)]
pub struct ScreenLayout {
    pub action_bar: Area,
    pub menu: Area,
    pub pod_stats: Area,
}

/// What a click hits.
#[derive(Debug, Clone, Copy, PartialEq, Eq, Structural)]
pub enum Click {
    Nothing,
    /// The action bar, this many columns from its left edge.
    ActionBar(usize),
    /// The menu, this many rows below its border.
    Menu(usize),
}

/// Whether a row belongs to an area.
pub open spec fn spans_row(a: Area, y: u16) -> bool {
    a.y <= y && y < a.y + a.height
}

/// Whether a point belongs to an area.
pub open spec fn spans(a: Area, x: u16, y: u16) -> bool {
    a.x <= x && x < a.x + a.width && spans_row(a, y)
}

/// What a click hits. The action bar takes the whole width of its rows.
pub open spec fn click_at(l: ScreenLayout, x: u16, y: u16) -> Click {
    if spans_row(l.action_bar, y) {
        Click::ActionBar(
            (if x >= l.action_bar.x {
                x - l.action_bar.x
            } else {
                0
            }) as usize,
        )
    } else if spans(l.menu, x, y) {
        Click::Menu(
            (if y - l.menu.y >= 1 {
                y - l.menu.y - 1
            } else {
                0
            }) as usize,
        )
    } else {
        Click::Nothing
    }
}

impl InputState {
    /// Does what Enter does on what is selected.
    pub fn handle_enter(&mut self, s: &Selection) -> (r: Activation)
        ensures
            r is OpenContextMenu <==> old(self).focus == FocusArea::PodStats && s.pod_selected,
            r is OpenUrl <==> old(self).focus == FocusArea::Content && s.ingress_url is Some,
            r is Cluster <==> old(self).focus == FocusArea::ActionBar && s.action is Some,
            final(self).focus == old(self).focus,
            match old(self).focus {
                FocusArea::ActionBar => match s.action {
                    Some(a) => r == Activation::Cluster(action_start(a)) && final(self)@
                        == after_action(old(self)@, a),
                    None => r is Nothing && final(self)@ == old(self)@,
                },
                FocusArea::Content => {
                    &&& final(self)@ == old(self)@
                    &&& match s.ingress_url {
                        Some(u) => r == Activation::OpenUrl(u),
                        None => r == item_activation(s.item),
                    }
                },
                FocusArea::PodStats => if s.pod_selected {
                    r is OpenContextMenu && final(self)@ == (InputView {
                        mode: AppMode::PodContextMenu,
                        ..old(self)@
                    })
                } else {
                    r is Nothing && final(self)@ == old(self)@
                },
            },
    {
        match self.focus {
            FocusArea::ActionBar => match s.action {
                Some(a) => Activation::Cluster(self.execute_cluster_action(a)),
                None => Activation::Nothing,
            },
            FocusArea::Content => match &s.ingress_url {
                Some(u) => Activation::OpenUrl(u.clone()),
                None => activate_item(s.item),
            },
            FocusArea::PodStats => if s.pod_selected {
                self.mode = AppMode::PodContextMenu;
                Activation::OpenContextMenu
            } else {
                Activation::Nothing
            },
        }
    }

    /// A mouse event: only a left click counts, in normal mode and while nothing runs.
    pub fn handle_mouse(
        &mut self,
        layout: &Option<ScreenLayout>,
        left_down: bool,
        x: u16,
        y: u16,
    ) -> (r: Click)
        ensures
            r != Click::Nothing ==> old(self).mode == AppMode::Normal && !old(self).is_executing && left_down,
            r is ActionBar ==> final(self).focus == FocusArea::ActionBar,
            r is Menu ==> final(self).focus == FocusArea::Content,
            r is Nothing ==> final(self).focus == old(self).focus,
            (old(self).mode != AppMode::Normal || old(self).is_executing || *layout is None
                || !left_down) ==> r == Click::Nothing && final(self)@ == old(self)@,
            !(old(self).mode != AppMode::Normal || old(self).is_executing || *layout is None
                || !left_down) ==> {
                &&& r == click_at(layout->0, x, y)
                &&& final(self)@ == (match r {
                    Click::Nothing => old(self)@,
                    Click::ActionBar(_) => InputView { focus: FocusArea::ActionBar, ..old(self)@ },
                    Click::Menu(_) => InputView { focus: FocusArea::Content, ..old(self)@ },
                })
            },
    {
        if self.mode != AppMode::Normal || self.is_executing || !left_down {
            return Click::Nothing;
        }
        match layout {
            None => Click::Nothing,
            Some(l) => {
                let bar = l.action_bar;
                let menu = l.menu;
                if y >= bar.y && (y as u32) < bar.y as u32 + bar.height as u32 {
                    self.focus = FocusArea::ActionBar;
                    let dx: u16 = if x >= bar.x {
                        x - bar.x
                    } else {
                        0
                    };
                    Click::ActionBar(dx as usize)
                } else if x >= menu.x && (x as u32) < menu.x as u32 + menu.width as u32 && y
                    >= menu.y && (y as u32) < menu.y as u32 + menu.height as u32 {
                    self.focus = FocusArea::Content;
                    let dy: u16 = y - menu.y;
                    Click::Menu(
                        if dy >= 1 {
                            (dy - 1) as usize
                        } else {
                            0
                        },
                    )
                } else {
                    Click::Nothing
                }
            },
        }
    }
}

/// Rows and columns for a shell below the pod list: half of the list's inner height, less a
/// separator and a tab bar.
pub open spec fn shell_size(layout: Option<ScreenLayout>) -> (int, int) {
    match layout {
        None => (24, 80),
        Some(l) => {
            let inner = less(l.pod_stats.height as int, 2);
            (less(less(inner, inner / 2 + 1), 1), less(l.pod_stats.width as int, 2))
        },
    }
}

/// The difference, or zero where it would be negative.
pub open spec fn less(a: int, b: int) -> int {
    if a >= b {
        a - b
    } else {
        0
    }
}

fn minus(a: u16, b: u16) -> (r: u16)
    ensures
        r == less(a as int, b as int),
{
    if a >= b {
        a - b
    } else {
        0
    }
}

/// Rows and columns of a shell on the current screen.
pub fn calculate_shell_dimensions(layout: &Option<ScreenLayout>) -> (r: (u16, u16))
    ensures
        (r.0 as int, r.1 as int) == shell_size(*layout),
{
    match layout {
        None => (24, 80),
        Some(l) => {
            let inner: u16 = minus(l.pod_stats.height, 2);
            let list: u16 = inner / 2;
            let detail: u16 = minus(inner, list + 1);
            (minus(detail, 1), minus(l.pod_stats.width, 2))
        },
    }
}

/// A shell never takes more rows or columns than its panel has.
pub proof fn law_shell_fits(l: ScreenLayout)
    ensures
        0 <= shell_size(Some(l)).0 <= l.pod_stats.height,
        0 <= shell_size(Some(l)).1 <= l.pod_stats.width,
{
}

// ---------------------------------------------------------------------------
// Laws
// ---------------------------------------------------------------------------

proof fn lemma_first_named(entries: Seq<CommandEntry>, part: Seq<char>, k: int)
    ensures
        first_named(entries, part) is None <==> forall|i: int|
            0 <= i < entries.len() ==> !named((#[trigger] entries[i]).name@, part),
        0 <= k < entries.len() && named(entries[k].name@, part) && (forall|i: int|
            0 <= i < k ==> !named((#[trigger] entries[i]).name@, part)) ==> first_named(
            entries,
            part,
        ) == Some(entries[k]),
    decreases entries.len(),
{
    if entries.len() > 0 && !named(entries[0].name@, part) {
        let r = entries.skip(1);
        lemma_first_named(r, part, k - 1);
        assert forall|i: int| 0 <= i < r.len() implies #[trigger] r[i] == entries[i + 1] by {}
        if first_named(r, part) is None {
            assert forall|i: int| 0 <= i < entries.len() implies !named(
                (#[trigger] entries[i]).name@,
                part,
            ) by {
                if i > 0 {
                    assert(r[i - 1] == entries[i]);
                }
            }
        } else if forall|i: int|
            0 <= i < entries.len() ==> !named((#[trigger] entries[i]).name@, part) {
            assert forall|i: int| 0 <= i < r.len() implies !named((#[trigger] r[i]).name@, part) by {
                assert(entries[i + 1] == r[i]);
            }
        }
        if 0 < k < entries.len() && (forall|i: int|
            0 <= i < k ==> !named((#[trigger] entries[i]).name@, part)) {
            assert(r[k - 1] == entries[k]);
            assert forall|i: int| 0 <= i < k - 1 implies !named((#[trigger] r[i]).name@, part) by {
                assert(entries[i + 1] == r[i]);
            }
        }
    }
}

/// A command is found by the names of its group and of itself, whatever their case: the first group of
/// that name, and in it the first command of that name. A group alone is no command.
pub proof fn law_commands_are_found_by_their_names(
    groups: Seq<CommandEntry>,
    i: int,
    j: int,
    group: Seq<char>,
    name: Seq<char>,
)
    requires
        0 <= i < groups.len(),
        0 <= j < groups[i].commands@.len(),
        !group.contains('/'),
        !name.contains('/'),
        lowered(groups[i].name@) == lowered(trimmed(group)),
        lowered(groups[i].commands@[j].name@) == lowered(trimmed(name)),
        forall|k: int|
            0 <= k < i ==> lowered((#[trigger] groups[k]).name@) != lowered(trimmed(group)),
        forall|k: int|
            0 <= k < j ==> lowered((#[trigger] groups[i].commands@[k]).name@) != lowered(
                trimmed(name),
            ),
    ensures
        command_at(groups, group.push('/') + name) == Some(groups[i].commands@[j]),
        command_at(groups, group) is None,
{
    lemma_pieces_head(group, '/', name);
    lemma_pieces_single(name, '/');
    lemma_pieces_single(group, '/');
    let p = pieces(group.push('/') + name, '/');
    assert(p =~= seq![group, name]);
    assert(p.skip(1) =~= seq![name]);
    assert(pieces(group, '/').skip(1) =~= Seq::<Seq<char>>::empty());
    assert forall|k: int| 0 <= k < i implies !named((#[trigger] groups[k]).name@, group) by {}
    lemma_first_named(groups, group, i);
    let cs = groups[i].commands@;
    assert forall|k: int| 0 <= k < j implies !named((#[trigger] cs[k]).name@, name) by {}
    lemma_first_named(cs, name, j);
}

/// What is found at a path bears the name that the path ends in.
pub proof fn law_found_commands_bear_the_name(entries: Seq<CommandEntry>, path: Seq<Seq<char>>)
    ensures
        entry_at(entries, path) matches Some(e) ==> path.len() > 0 && lowered(e.name@) == lowered(
            trimmed(path.last()),
        ),
    decreases path.len(),
{
    if path.len() > 0 {
        lemma_first_named_bears(entries, path[0]);
        if let Some(e) = first_named(entries, path[0]) {
            if path.len() > 1 {
                law_found_commands_bear_the_name(e.commands@, path.skip(1));
                assert(path.skip(1).last() == path.last());
            }
        }
    }
}

proof fn lemma_first_named_bears(entries: Seq<CommandEntry>, part: Seq<char>)
    ensures
        first_named(entries, part) matches Some(e) ==> named(e.name@, part) && entries.contains(e),
    decreases entries.len(),
{
    if entries.len() > 0 {
        if named(entries[0].name@, part) {
            assert(entries.contains(entries[0]));
        } else {
            let r = entries.skip(1);
            lemma_first_named_bears(r, part);
            if let Some(e) = first_named(r, part) {
                let i = choose|i: int| 0 <= i < r.len() && r[i] == e;
                assert(entries[i + 1] == e);
            }
        }
    }
}

proof fn lemma_name_end(s: Seq<char>, i: int, n: int)
    requires
        0 <= i <= n <= s.len(),
        forall|j: int| i <= j < n ==> name_char(#[trigger] s[j]),
        n < s.len() ==> !name_char(s[n]),
    ensures
        name_end(s, i) == n,
    decreases n - i,
{
    if i < n {
        lemma_name_end(s, i + 1, n);
    }
}

proof fn lemma_names_from(s: Seq<char>, from: int, i: int)
    requires
        0 <= from <= i,
        i + 1 < s.len(),
        s[i] == '@',
        name_char(s[i + 1]),
    ensures
        names_from(s, from).contains(s.subrange(i + 1, name_end(s, i + 1))),
    decreases i - from,
{
    let x = s.subrange(i + 1, name_end(s, i + 1));
    if from == i {
        assert(names_from(s, from)[0] == x);
    } else {
        lemma_names_from(s, from + 1, i);
        let r = names_from(s, from + 1);
        let k = choose|k: int| 0 <= k < r.len() && r[k] == x;
        let a = names_from(s, from);
        if s[from] == '@' && name_char(s[from + 1]) {
            assert(a[k + 1] == x);
        } else {
            assert(a[k] == x);
        }
    }
}

/// A placeholder anywhere in a text is found by its name: the letters, digits and underscores that
/// follow the at sign.
pub proof fn law_placeholders_are_found(a: Seq<char>, name: Seq<char>, b: Seq<char>)
    requires
        name.len() > 0,
        forall|i: int| 0 <= i < name.len() ==> name_char(#[trigger] name[i]),
        b.len() > 0 ==> !name_char(b[0]),
    ensures
        names_from(a + placeholder(name) + b, 0).contains(name),
{
    reveal_strlit("@");
    let s = a + placeholder(name) + b;
    let i = a.len() as int;
    let n = i + 1 + name.len();
    assert(s[i] == '@');
    assert forall|j: int| i + 1 <= j < n implies name_char(#[trigger] s[j]) by {
        assert(s[j] == name[j - i - 1]);
    }
    if n < s.len() {
        assert(s[n] == b[0]);
    }
    lemma_name_end(s, i + 1, n);
    lemma_names_from(s, 0, i);
    assert(s.subrange(i + 1, n) =~= name);
}

proof fn lemma_no_names(s: Seq<char>, from: int)
    requires
        !s.contains('@'),
        0 <= from,
    ensures
        names_from(s, from).len() == 0,
    decreases s.len() - from,
{
    if from < s.len() {
        assert(s.contains(s[from]));
        lemma_no_names(s, from + 1);
    }
}

/// A text without an at sign has no placeholders and is not changed by values.
pub proof fn law_texts_without_placeholders_are_kept(s: Seq<char>, values: Seq<(String, String)>)
    requires
        !s.contains('@'),
    ensures
        names_from(s, 0).len() == 0,
        filled(s, values) == s,
    decreases values.len(),
{
    lemma_no_names(s, 0);
    if values.len() > 0 {
        law_texts_without_placeholders_are_kept(s, values.drop_last());
        lemma_no_placeholder(s, values.last().0@);
        law_replacing_goes_left_to_right(
            s,
            placeholder(values.last().0@),
            values.last().1@,
            0,
        );
    }
}

proof fn lemma_no_placeholder(s: Seq<char>, key: Seq<char>)
    requires
        !s.contains('@'),
    ensures
        !has_sub(s, placeholder(key)),
        placeholder(key).len() > 0,
{
    reveal_strlit("@");
    let p = placeholder(key);
    if has_sub(s, p) {
        let i = choose|i: int| #[trigger] occurs_at(s, p, i);
        assert(s.subrange(i, i + p.len())[0] == s[i]);
        assert(p[0] == '@');
        assert(s.contains(s[i]));
    }
}

/// A placeholder that stands alone is replaced by its value, and the values are filled in one after
/// another.
pub proof fn law_values_fill_placeholders(s: Seq<char>, values: Seq<(String, String)>)
    requires
        values.len() > 0,
    ensures
        filled(s, values) == replaced(
            filled(s, values.drop_last()),
            "@"@ + values.last().0@,
            values.last().1@,
        ),
        filled(s, values.drop_last()) == "@"@ + values.last().0@ ==> filled(s, values)
            == values.last().1@,
{
    reveal_strlit("@");
    let p = placeholder(values.last().0@);
    let v = values.last().1@;
    if filled(s, values.drop_last()) == p {
        assert(p.len() > 0);
        assert(p.subrange(0, p.len() as int) =~= p);
        assert(occurs_at(p, p, 0));
        assert(replaced_from(p, p, v, 0) == v + replaced_from(p, p, v, p.len() as int));
        assert(v + replaced_from(p, p, v, p.len() as int) =~= v);
    }
}

/// The form of a command asks for every placeholder of its target, its directory and its command line,
/// each once; a command without any is not asked about.
pub proof fn law_forms_ask_for_every_placeholder(e: ExecSpec, x: Seq<char>)
    ensures
        exec_names(e).contains(x) <==> names_from(e.workdir@, 0).contains(x) || names_from(
            e.cmd@,
            0,
        ).contains(x) || match e.target {
            ExecutionTarget::Host => false,
            ExecutionTarget::Docker { container } => names_from(container@, 0).contains(x),
            ExecutionTarget::Kubernetes { namespace, selector, pod_name, container } => names_from(
                namespace@,
                0,
            ).contains(x) || names_from(selector@, 0).contains(x) || names_from(
                pod_name@,
                0,
            ).contains(x) || names_from(container@, 0).contains(x),
        },
        exec_names(e).no_duplicates(),
        form_fields(e).len() == exec_names(e).len(),
        forall|i: int|
            0 <= i < form_fields(e).len() ==> (#[trigger] form_fields(e)[i]).0 == exec_names(e)[i],
{
    let w = names_from(e.workdir@, 0);
    let c = names_from(e.cmd@, 0);
    let t = target_names(e.target);
    law_joining_once_repeats_nothing(Seq::empty(), t + w + c, x);
    lemma_concat_contains(t + w, c, x);
    lemma_concat_contains(t, w, x);
    if let ExecutionTarget::Kubernetes { namespace, selector, pod_name, container } = e.target {
        let (p, q, r, s) = (
            names_from(namespace@, 0),
            names_from(selector@, 0),
            names_from(pod_name@, 0),
            names_from(container@, 0),
        );
        lemma_concat_contains(p + q + r, s, x);
        lemma_concat_contains(p + q, r, x);
        lemma_concat_contains(p, q, x);
    }
}

proof fn lemma_concat_contains(a: Seq<Seq<char>>, b: Seq<Seq<char>>, x: Seq<char>)
    ensures
        (a + b).contains(x) <==> a.contains(x) || b.contains(x),
{
    let s = a + b;
    if a.contains(x) {
        let i = choose|i: int| 0 <= i < a.len() && a[i] == x;
        assert(s[i] == x);
    }
    if b.contains(x) {
        let i = choose|i: int| 0 <= i < b.len() && b[i] == x;
        assert(s[a.len() + i] == x);
    }
    if s.contains(x) {
        let i = choose|i: int| 0 <= i < s.len() && s[i] == x;
        if i < a.len() {
            assert(a[i] == x);
        } else {
            assert(b[i - a.len()] == x);
        }
    }
}

/// The prompt of a placeholder is the first that is configured for it, and else one that names it.
pub proof fn law_prompts_are_configured(input: Seq<(String, String)>, key: Seq<char>, k: int)
    ensures
        0 <= k < input.len() && input[k].0@ == key && (forall|i: int|
            0 <= i < k ==> (#[trigger] input[i]).0@ != key) ==> prompt_for(input, key)
            == input[k].1@,
        (forall|i: int| 0 <= i < input.len() ==> (#[trigger] input[i]).0@ != key) ==> prompt_for(
            input,
            key,
        ) == "Enter "@ + key + ":"@,
    decreases input.len(),
{
    if input.len() > 0 && input[0].0@ != key {
        let r = input.skip(1);
        law_prompts_are_configured(r, key, k - 1);
        assert forall|i: int| 0 <= i < r.len() implies #[trigger] r[i] == input[i + 1] by {}
        if forall|i: int| 0 <= i < input.len() ==> (#[trigger] input[i]).0@ != key {
            assert forall|i: int| 0 <= i < r.len() implies (#[trigger] r[i]).0@ != key by {
                assert(input[i + 1] == r[i]);
            }
        }
        if 0 < k < input.len() && (forall|i: int| 0 <= i < k ==> (#[trigger] input[i]).0@ != key) {
            assert(r[k - 1] == input[k]);
            assert forall|i: int| 0 <= i < k - 1 implies (#[trigger] r[i]).0@ != key by {
                assert(input[i + 1] == r[i]);
            }
        }
    }
}

/// A command runs where it is meant to: on this machine, in its container, or in a pod of its namespace;
/// the last only where there is a connection.
pub proof fn law_commands_run_at_their_target(cmd: CommandEntry, connected: bool, r: Dispatch)
    requires
        dispatched(cmd, connected, r),
        cmd.execution is Some,
    ensures
        cmd.execution->0.target is Host <==> r is Host,
        cmd.execution->0.target is Docker <==> r is Docker,
        cmd.execution->0.target is Kubernetes && connected <==> r is Pod,
        cmd.execution->0.target is Kubernetes && !connected <==> r is NotConnected,
        r matches Dispatch::Docker { container, title } ==> cmd.execution->0.target->Docker_container@
            == container@,
        r matches Dispatch::Pod { namespace, selector, pod_name, container }
            ==> cmd.execution->0.target->namespace@ == namespace@,
{
}

/// A command line in a directory is the command line, behind a change to the directory where there is
/// one.
pub proof fn law_directory_comes_first(workdir: Seq<char>, command: Seq<char>)
    ensures
        ends(in_directory(workdir, command), command),
        workdir.len() == 0 ==> in_directory(workdir, command) == command,
        workdir.len() > 0 ==> begins(in_directory(workdir, command), "cd "@ + workdir + " && "@),
{
    let s = in_directory(workdir, command);
    assert(s.subrange(s.len() - command.len(), s.len() as int) =~= command);
    let h = "cd "@ + workdir + " && "@;
    if workdir.len() > 0 {
        assert(s.subrange(0, h.len() as int) =~= h);
    }
}

/// Nothing that destroys runs without a question, and everything else runs as what it is.
pub proof fn law_destruction_is_asked_about(st: InputView, a: ClusterAction)
    ensures
        action_start(a) matches ActionStart::Run(b) ==> b == a && a != ClusterAction::Destroy && a
            != ClusterAction::DeleteSnapshots,
        a == ClusterAction::Destroy || a == ClusterAction::DeleteSnapshots ==> !after_action(
            st,
            a,
        ).is_executing || st.is_executing,
        a == ClusterAction::Destroy || a == ClusterAction::DeleteSnapshots ==> after_action(st, a).mode
            == AppMode::ConfirmDestroy && after_action(st, a).pending_cluster_action == Some(a),
        !(action_start(a) is Run) ==> a == ClusterAction::Destroy || a
            == ClusterAction::DeleteSnapshots || a == ClusterAction::Diagnostics || a
            == ClusterAction::PreflightCheck,
        action_start(a) is Run ==> after_action(st, a).is_executing && after_action(st, a).mode
            == AppMode::OutputPopup,
{
}

/// A click on the action bar or the menu is told where in it it hit; elsewhere it hits nothing.
pub proof fn law_clicks_hit_what_is_there(l: ScreenLayout, x: u16, y: u16)
    ensures
        click_at(l, x, y) matches Click::ActionBar(k) ==> l.action_bar.y <= y < l.action_bar.y
            + l.action_bar.height && (x >= l.action_bar.x ==> x == l.action_bar.x + k),
        click_at(l, x, y) matches Click::Menu(k) ==> l.menu.x <= x < l.menu.x + l.menu.width
            && l.menu.y <= y < l.menu.y + l.menu.height && (y > l.menu.y ==> y == l.menu.y + 1 + k),
        click_at(l, x, y) == Click::Nothing ==> !(l.action_bar.y <= y < l.action_bar.y
            + l.action_bar.height) && !(l.menu.x <= x < l.menu.x + l.menu.width && l.menu.y <= y
            < l.menu.y + l.menu.height),
{
}

/// An item with others below it is opened or closed, another runs where it has a command.
pub proof fn law_items_open_or_run(children: bool, command: bool)
    ensures
        item_activation(Some((children, command))) is ToggleItem <==> children,
        item_activation(Some((children, command))) is RunItem <==> !children && command,
        item_activation(None) is Nothing,
{
}

/// Without values a command stays what it is; with them it keeps its name, its kind of target and what
/// is below it.
pub proof fn law_filling_keeps_the_rest(cmd: CommandEntry, values: Seq<(String, String)>, r: CommandEntry)
    requires
        filled_command(cmd, values, r),
    ensures
        r.name@ == cmd.name@,
        r.commands@.len() == cmd.commands@.len(),
        r.execution is Some <==> cmd.execution is Some,
        cmd.execution is Some ==> {
            let (e, f) = (cmd.execution->0, r.execution->0);
            &&& e.target is Host <==> f.target is Host
            &&& e.target is Docker <==> f.target is Docker
            &&& e.target is Kubernetes <==> f.target is Kubernetes
            &&& values.len() == 0 ==> f.cmd@ == e.cmd@ && f.workdir@ == e.workdir@
            &&& values.len() == 0 && e.target is Docker ==> f.target->Docker_container@
                == e.target->Docker_container@
            &&& values.len() == 0 && e.target is Kubernetes ==> f.target->namespace@
                == e.target->namespace@ && f.target->selector@ == e.target->selector@
                && f.target->pod_name@ == e.target->pod_name@ && f.target->Kubernetes_container@
                == e.target->Kubernetes_container@
            &&& f.cmd@ == filled(e.cmd@, values)
            &&& f.workdir@ == filled(e.workdir@, values)
        },
{
}

/// A copy of a command does what the command does.
pub proof fn law_copies_do_the_same(a: CommandEntry, b: CommandEntry, connected: bool, r: Dispatch)
    requires
        same_entry(a, b),
    ensures
        dispatched(a, connected, r) <==> dispatched(b, connected, r),
        a.commands@.len() == b.commands@.len(),
        a.execution is Some ==> b.execution is Some && a.execution->0.cmd@ == b.execution->0.cmd@
            && a.execution->0.workdir@ == b.execution->0.workdir@,
{
}

/// Every entry is a copy of itself.
pub proof fn law_entries_are_like_themselves(a: CommandEntry)
    ensures
        same_entry(a, a),
    decreases a,
{
    assert forall|i: int| 0 <= i < a.commands@.len() implies same_entry(
        #[trigger] a.commands@[i],
        a.commands@[i],
    ) by {
        law_entries_are_like_themselves(a.commands@[i]);
    }
}

/// The output opens for what prints, and something is then running that can be cancelled; nothing else
/// changes what is shown.
pub proof fn law_output_opens_for_what_prints(st: InputView, d: Dispatch)
    ensures
        d is Host || d is Docker ==> after_dispatch(st, d).mode == AppMode::OutputPopup
            && after_dispatch(st, d).is_executing && after_dispatch(st, d).cancellable,
        d is Pod || d is NotConnected || d is Nothing ==> after_dispatch(st, d) == st,
{
}

/// A shell has the rows that the borders, the upper half with its separator and the tab bar leave, and
/// all columns but those of the borders; without a screen it has twenty-four by eighty.
pub proof fn law_shell_has_the_lower_half(l: ScreenLayout)
    ensures
        l.pod_stats.height >= 6 ==> shell_size(Some(l)).0 + (l.pod_stats.height - 2) / 2 + 2 + 2
            == l.pod_stats.height,
        l.pod_stats.width >= 2 ==> shell_size(Some(l)).1 + 2 == l.pod_stats.width,
        shell_size(None) == (24int, 80int),
{
}

} // verus!
