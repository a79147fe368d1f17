//! What the jobs of a session report, and what is asked of the machine outside the screen.

use vstd::prelude::*;
use crate::cluster::ingress::HostsUpdateResult;
use crate::machine::{go, good, no_lines, silent, tells_success, Event, Next, NextView, Step, StepView};
use crate::number::{decimal, u64_text};
use crate::output::{error, info, line_views, say, success, LineView, OutputLine};
use crate::text::{lines, no_texts, opt_view, push_text, split_lines, views};

verus! {

// ---------------------------------------------------------------------------
// Start
// ---------------------------------------------------------------------------

/// The warnings about a configuration, as they are shown.
pub open spec fn warning_texts(v: Seq<Seq<char>>) -> Seq<Seq<char>> {
    Seq::new(v.len(), |i: int| "Config warning: "@ + v[i])
}

/// The warnings about a configuration, as they are shown.
pub fn startup_warnings(v: &Vec<String>) -> (r: Vec<String>)
    ensures
        views(r@) == warning_texts(views(v@)),
{
    let n: usize = v.len();
    let mut out: Vec<String> = Vec::new();
    let mut i: usize = 0;
    while i < n
        invariant
            n == v@.len(),
            i <= n,
            out@.len() == i,
            forall|j: int| 0 <= j < i ==> (#[trigger] out@[j])@ == "Config warning: "@ + v@[j]@,
        decreases n - i,
    {
        let mut s = "Config warning: ".to_owned();
        s.append(v[i].as_str());
        out.push(s);
        i = i + 1;
    }
    assert(views(out@) =~= warning_texts(views(v@)));
    out
}

/// The name under which the cluster is shown: its context, or the name of its container.
pub fn shown_cluster_name(context: &Option<String>, container_name: &str) -> (r: String)
    ensures
        r@ == match opt_view(*context) {
            Some(c) => c,
            None => container_name@,
        },
{
    match context {
        Some(c) => c.clone(),
        None => container_name.to_owned(),
    }
}

// ---------------------------------------------------------------------------
// Reports of jobs
// ---------------------------------------------------------------------------

/// The line about a page that was opened, or was not.
pub fn open_url(url: &str, result: &Result<(), String>) -> (r: OutputLine)
    ensures
        r@ == match *result {
            Ok(_) => info("Opening: "@ + url@),
            Err(e) => error("Failed to open URL: "@ + e@),
        },
{
    match result {
        Ok(_) => {
            let mut s = "Opening: ".to_owned();
            s.append(url);
            OutputLine::info(s.as_str())
        },
        Err(e) => {
            let mut s = "Failed to open URL: ".to_owned();
            s.append(e.as_str());
            OutputLine::error(s.as_str())
        },
    }
}

/// What a tab of the detail panel loads.
#[derive(Debug, Clone, Copy, PartialEq, Eq, Structural)]
pub enum Loading {
    Logs,
    Description,
    Timeline,
    /// The pod that a command runs in.
    Pod,
}

/// What is said before the reason of a load that failed.
pub open spec fn load_complaint(l: Loading) -> Seq<char> {
    match l {
        Loading::Logs => "Failed to get logs: "@,
        Loading::Description => "Failed to describe pod: "@,
        Loading::Timeline => "Failed to load timeline: "@,
        Loading::Pod => "Pod not found: "@,
    }
}

/// The message of a load that failed.
pub fn load_failed(l: Loading, reason: &str) -> (r: String)
    ensures
        r@ == load_complaint(l) + reason@,
{
    let mut s = match l {
        Loading::Logs => "Failed to get logs: ".to_owned(),
        Loading::Description => "Failed to describe pod: ".to_owned(),
        Loading::Timeline => "Failed to load timeline: ".to_owned(),
        Loading::Pod => "Pod not found: ".to_owned(),
    };
    s.append(reason);
    s
}

/// The lines that a tab shows, or the message of a load that failed.
pub fn load_detail(l: Loading, result: &Result<String, String>) -> (r: Result<Vec<String>, String>)
    ensures
        r is Ok <==> *result is Ok,
        match *result {
            Ok(t) => r is Ok && views(r->Ok_0@) == lines(t@),
            Err(e) => r is Err && r->Err_0@ == load_complaint(l) + e@,
        },
{
    match result {
        Ok(t) => Ok(split_lines(t.as_str())),
        Err(e) => Err(load_failed(l, e.as_str())),
    }
}

/// Information lines.
pub open spec fn info_lines(v: Seq<Seq<char>>) -> Seq<LineView> {
    Seq::new(v.len(), |i: int| info(v[i]))
}

/// What a command that ran in a container leaves: its output line by line, or the message of its
/// failure.
pub fn run_docker_command(result: &Result<String, String>) -> (r: Result<Vec<OutputLine>, String>)
    ensures
        r is Ok <==> *result is Ok,
        match *result {
            Ok(t) => r is Ok && line_views(r->Ok_0@) == info_lines(lines(t@)),
            Err(e) => r is Err && r->Err_0@ == "docker exec failed: "@ + e@,
        },
{
    match result {
        Ok(t) => {
            let ls = split_lines(t.as_str());
            let n: usize = ls.len();
            let mut out = no_lines();
            let mut i: usize = 0;
            assert(line_views(out@).len() == 0);
            while i < n
                invariant
                    n == ls@.len(),
                    i <= n,
                    out@.len() == i,
                    forall|j: int| 0 <= j < i ==> (#[trigger] out@[j])@ == info(ls@[j]@),
                decreases n - i,
            {
                out.push(OutputLine::info(ls[i].as_str()));
                i = i + 1;
            }
            assert(line_views(out@) =~= info_lines(views(ls@)));
            Ok(out)
        },
        Err(e) => {
            let mut s = "docker exec failed: ".to_owned();
            s.append(e.as_str());
            Err(s)
        },
    }
}

/// The title of an operation on the cluster, given its name.
pub fn cluster_title(action: &str) -> (r: String)
    ensures
        r@ == "Cluster "@ + action@,
{
    let mut s = "Cluster ".to_owned();
    s.append(action);
    s
}

/// The message of a job for the hosts file that failed, or the content that has to be written with
/// more rights.
pub fn trigger_manual_hosts_update(result: Result<HostsUpdateResult, String>) -> (r: Result<
    Option<(String, usize)>,
    String,
>)
    ensures
        r is Err <==> result is Err,
        match result {
            Ok(HostsUpdateResult::NeedsSudo { content, count }) => r == Ok::<
                Option<(String, usize)>,
                String,
            >(Some((content, count))),
            Ok(_) => r == Ok::<Option<(String, usize)>, String>(None),
            Err(e) => r is Err && r->Err_0@ == "Failed to update /etc/hosts: "@ + e@,
        },
{
    match result {
        Ok(HostsUpdateResult::NeedsSudo { content, count }) => Ok(Some((content, count))),
        Ok(_) => Ok(None),
        Err(e) => {
            let mut s = "Failed to update /etc/hosts: ".to_owned();
            s.append(e.as_str());
            Err(s)
        },
    }
}

// ---------------------------------------------------------------------------
// Writing the hosts file with more rights
// ---------------------------------------------------------------------------

/// An action on the way to a hosts file that is written with more rights.
#[derive(Debug, Clone, Copy, PartialEq, Eq, Structural)]
pub enum SudoAction {
    /// Write the content to a temporary file.
    WriteTemporary,
    /// Copy it over the hosts file.
    Copy,
    /// Restore the label of the hosts file.
    RestoreLabel,
    /// Show what came of it, wait for a key, and remove the temporary file.
    Report(bool),
}

/// The step that follows an action.
pub open spec fn sudo_next(a: SudoAction, ev: Event, count: usize, linux: bool) -> StepView<
    SudoAction,
    (),
> {
    match a {
        SudoAction::WriteTemporary => if good(ev) {
            (silent(), NextView::Go(SudoAction::Copy))
        } else {
            (
                silent().push(error("Failed to write temporary hosts file"@)),
                NextView::Done(()),
            )
        },
        SudoAction::Copy => if good(ev) && linux {
            (silent(), NextView::Go(SudoAction::RestoreLabel))
        } else {
            (silent(), NextView::Go(SudoAction::Report(good(ev))))
        },
        SudoAction::RestoreLabel => (silent(), NextView::Go(SudoAction::Report(true))),
        SudoAction::Report(ok) => (
            silent().push(
                if ok {
                    success("Updated /etc/hosts with "@ + decimal(count as nat) + " entries"@)
                } else {
                    error("Failed to update /etc/hosts (sudo cancelled or failed)"@)
                },
            ),
            NextView::Done(()),
        ),
    }
}

/// The step that follows an action.
pub fn run_interactive_sudo_hosts_update(a: SudoAction, ev: &Event, count: usize, linux: bool) -> (r:
    Step<SudoAction, ()>)
    ensures
        r@ == sudo_next(a, *ev, count, linux),
{
    match a {
        SudoAction::WriteTemporary => if ev.is_good() {
            go(SudoAction::Copy)
        } else {
            let mut lines = no_lines();
            say(&mut lines, OutputLine::error("Failed to write temporary hosts file"));
            Step { lines, next: Next::Done(()) }
        },
        SudoAction::Copy => if ev.is_good() && linux {
            go(SudoAction::RestoreLabel)
        } else {
            go(SudoAction::Report(ev.is_good()))
        },
        SudoAction::RestoreLabel => go(SudoAction::Report(true)),
        SudoAction::Report(ok) => {
            let mut lines = no_lines();
            if ok {
                let mut s = "Updated /etc/hosts with ".to_owned();
                s.append(u64_text(count as u64).as_str());
                s.append(" entries");
                say(&mut lines, OutputLine::success(s.as_str()));
            } else {
                say(
                    &mut lines,
                    OutputLine::error("Failed to update /etc/hosts (sudo cancelled or failed)"),
                );
            }
            Step { lines, next: Next::Done(()) }
        },
    }
}

/// The program that copies the temporary file over the hosts file, and its arguments.
pub open spec fn copy_arguments(windows: bool, temporary: Seq<char>, hosts: Seq<char>) -> Seq<Seq<char>> {
    if windows {
        Seq::empty().push("cmd"@).push("/C"@).push("copy"@).push(temporary).push(hosts)
    } else {
        Seq::empty().push("sudo"@).push("cp"@).push(temporary).push(hosts)
    }
}

/// The program that copies the temporary file over the hosts file, and its arguments.
pub fn copy_command(windows: bool, temporary: &str, hosts: &str) -> (r: Vec<String>)
    ensures
        views(r@) == copy_arguments(windows, temporary@, hosts@),
{
    let mut v = no_texts();
    if windows {
        push_text(&mut v, "cmd");
        push_text(&mut v, "/C");
        push_text(&mut v, "copy");
    } else {
        push_text(&mut v, "sudo");
        push_text(&mut v, "cp");
    }
    push_text(&mut v, temporary);
    push_text(&mut v, hosts);
    v
}

/// The program that restores the label of the hosts file, and its arguments.
pub fn label_command(hosts: &str) -> (r: Vec<String>)
    ensures
        views(r@) == Seq::empty().push("sudo"@).push("restorecon"@).push(hosts@),
{
    let mut v = no_texts();
    push_text(&mut v, "sudo");
    push_text(&mut v, "restorecon");
    push_text(&mut v, hosts);
    v
}

/// What is printed before the copy.
pub fn announce_copy(count: usize) -> (r: String)
    ensures
        r@ == "\nUpdating /etc/hosts ("@ + decimal(count as nat) + " entries)...\n\n"@,
{
    let mut s = "\nUpdating /etc/hosts (".to_owned();
    s.append(u64_text(count as u64).as_str());
    s.append(" entries)...\n\n");
    s
}

/// What is printed after the copy.
pub fn report_copy(ok: bool, count: usize) -> (r: String)
    ensures
        r@ == (if ok {
            "\nUpdated /etc/hosts with "@ + decimal(count as nat) + " entries.\n"@
        } else {
            "\nFailed to update /etc/hosts.\n"@
        }) + "Press Enter to return to k3dev...\n"@,
{
    let mut s = if ok {
        let mut t = "\nUpdated /etc/hosts with ".to_owned();
        t.append(u64_text(count as u64).as_str());
        t.append(" entries.\n");
        t
    } else {
        "\nFailed to update /etc/hosts.\n".to_owned()
    };
    s.append("Press Enter to return to k3dev...\n");
    s
}

/// The temporary file outlives no attempt: once it is written, every way leads through the report,
/// which removes it.
pub proof fn law_temporary_hosts_file_is_removed(a: SudoAction, ev: Event, count: usize, linux: bool)
    requires
        a is WriteTemporary ==> good(ev),
    ensures
        sudo_next(a, ev, count, linux).1 is Done <==> a is Report,
{
}

/// The hosts file is copied only from a temporary file that was written; the label is restored only
/// after a copy, on Linux; and success is told of a copy that succeeded alone.
pub proof fn law_sudo_steps_follow_one_another(
    a: SudoAction,
    ev: Event,
    count: usize,
    linux: bool,
    b: SudoAction,
)
    ensures
        sudo_next(a, ev, count, linux).1 == NextView::<SudoAction, ()>::Go(b) <==> match b {
            SudoAction::WriteTemporary => false,
            SudoAction::Copy => a == SudoAction::WriteTemporary && good(ev),
            SudoAction::RestoreLabel => a == SudoAction::Copy && good(ev) && linux,
            SudoAction::Report(ok) => if ok {
                a == SudoAction::Copy && good(ev) && !linux || a == SudoAction::RestoreLabel
            } else {
                a == SudoAction::Copy && !good(ev)
            },
        },
        tells_success(sudo_next(a, ev, count, linux).0) <==> a == SudoAction::Report(true),
        sudo_next(a, ev, count, linux).1 is Done ==> sudo_next(a, ev, count, linux).0.len() == 1,
{
    let l = sudo_next(a, ev, count, linux).0;
    if a is Report {
        assert(l[0] == l.last());
    }
}

/// The message of a failed load ends with its reason and tells what was loaded.
pub proof fn law_failed_loads_tell_what_was_loaded(l: Loading, m: Loading, reason: Seq<char>)
    ensures
        load_complaint(l) + reason == load_complaint(m) + reason ==> l == m,
{
    reveal_strlit("Failed to get logs: ");
    reveal_strlit("Failed to describe pod: ");
    reveal_strlit("Failed to load timeline: ");
    reveal_strlit("Pod not found: ");
    let x = load_complaint(l) + reason;
    let y = load_complaint(m) + reason;
    assert(x.len() == load_complaint(l).len() + reason.len());
    assert(y.len() == load_complaint(m).len() + reason.len());
}

/// The temporary file is copied onto the hosts file, not the other way round.
pub proof fn law_hosts_file_is_copied_to(windows: bool, temporary: Seq<char>, hosts: Seq<char>)
    ensures
        copy_arguments(windows, temporary, hosts).last() == hosts,
        copy_arguments(windows, temporary, hosts)[copy_arguments(windows, temporary, hosts).len() - 2]
            == temporary,
        !windows ==> copy_arguments(windows, temporary, hosts)[0] == "sudo"@,
{
}

/// Every warning is shown, in its place.
pub proof fn law_warnings_are_shown(v: Seq<Seq<char>>, i: int)
    requires
        0 <= i < v.len(),
    ensures
        warning_texts(v).len() == v.len(),
        crate::text::ends(warning_texts(v)[i], v[i]),
{
    let s = warning_texts(v)[i];
    assert(s.subrange(s.len() - v[i].len(), s.len() as int) =~= v[i]);
}

/// A load that failed is named by what was loaded.
pub proof fn law_failed_loads_have_their_names(l: Loading)
    ensures
        l == Loading::Logs ==> load_complaint(l) == "Failed to get logs: "@,
        l == Loading::Description ==> load_complaint(l) == "Failed to describe pod: "@,
        l == Loading::Timeline ==> load_complaint(l) == "Failed to load timeline: "@,
        l == Loading::Pod ==> load_complaint(l) == "Pod not found: "@,
{
}

} // verus!
