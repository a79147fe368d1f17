//! Files and short-lived helpers in containers.

use vstd::prelude::*;
use crate::machine::{done, fail, go, good, no_lines, reason, silent, Event, Next, NextView, Step, StepView};
use crate::number::{decimal, i64_text, signed_decimal, u64_text};
use crate::text::{byte_len, contains, has_sub, views};

verus! {

// ---------------------------------------------------------------------------
// Copying a file into a container
// ---------------------------------------------------------------------------

/// The mode of a file that is copied into a container: executable by everyone.
pub const FILE_MODE: u32 = 0o755;

/// Whether a text is one component of a path on every machine.
pub open spec fn plain_component(s: Seq<char>) -> bool {
    &&& 0 < s.len()
    &&& s != "."@
    &&& s != ".."@
    &&& !s.contains('/')
    &&& !s.contains('\\')
    &&& !s.contains(':')
    &&& !s.contains('\0')
}

/// How many bytes a name may have that an archive holds in one piece.
pub const SHORT_NAME: usize = 100;

/// Whether an archive holds a name in one piece.
pub open spec fn fits_a_header(s: Seq<char>) -> bool {
    byte_len(s) <= SHORT_NAME
}

/// The archive that `tar::Builder` makes of one file: its name, its content and its mode.
pub uninterp spec fn archive_of(name: Seq<char>, data: Seq<u8>, mode: u32) -> Seq<u8>;

/// Calls `tar::Builder::append_data` with a GNU header that holds the size and the mode, and
/// `tar::Builder::into_inner`. For a plain component it succeeds, and the archive is a function of
/// the arguments: a name that does not fit into the header is written as an entry of its own. What
/// other names give is left open: it depends on how the machine reads paths.
#[verifier::external_body]
fn archive_file(name: &str, data: &Vec<u8>, mode: u32) -> (r: Result<Vec<u8>, String>)
    ensures
        plain_component(name@) ==> r is Ok && r->Ok_0@ == archive_of(name@, data@, mode),
{
    let mut builder = tar::Builder::new(Vec::new());
    let mut header = tar::Header::new_gnu();
    header.set_size(data.len() as u64);
    header.set_mode(mode);
    header.set_cksum();
    builder.append_data(&mut header, name, data.as_slice()).map_err(|e| e.to_string())?;
    builder.into_inner().map_err(|e| e.to_string())
}

/// An archive that is unpacked in a directory of a container.
#[derive(Debug, Clone)]
pub struct Upload {
    pub container: String,
    pub path: String,
    pub body: Vec<u8>,
}

/// The upload of an archive, or why there is none.
pub fn upload_of(container: &str, dest_dir: &str, archive: Result<Vec<u8>, String>) -> (r: Result<
    Upload,
    String,
>)
    ensures
        r is Ok <==> archive is Ok,
        match archive {
            Ok(v) => r matches Ok(u) && u.container@ == container@ && u.path@ == dest_dir@ && u.body
                == v,
            Err(e) => r == Err::<Upload, String>(e),
        },
{
    match archive {
        Ok(body) => Ok(
            Upload { container: container.to_owned(), path: dest_dir.to_owned(), body },
        ),
        Err(e) => Err(e),
    }
}

/// The upload that puts a file into a directory of a container.
pub fn copy_to_container(container: &str, file_name: &str, data: &Vec<u8>, dest_dir: &str) -> (r:
    Result<Upload, String>)
    ensures
        r matches Ok(u) ==> u.container@ == container@ && u.path@ == dest_dir@,
        plain_component(file_name@) ==> r is Ok && r->Ok_0.body@ == archive_of(
            file_name@,
            data@,
            FILE_MODE,
        ),
{
    upload_of(container, dest_dir, archive_file(file_name, data, FILE_MODE))
}

/// The message of an upload that failed.
pub fn copy_failed(file_name: &str, container: &str, dest_dir: &str) -> (r: String)
    ensures
        r@ == "Failed to copy "@ + file_name@ + " to "@ + container@ + ":"@ + dest_dir@,
{
    let mut s = "Failed to copy ".to_owned();
    s.append(file_name);
    s.append(" to ");
    s.append(container);
    s.append(":");
    s.append(dest_dir);
    s
}

// ---------------------------------------------------------------------------
// Waiting for the daemon
// ---------------------------------------------------------------------------

/// What follows a request to the daemon.
#[derive(Debug)]
pub enum WaitNext {
    /// It answers.
    Ready,
    /// Ask it.
    Ask,
    /// Pause, and ask it again.
    PauseAndAsk,
    GiveUp(String),
}

/// What follows `asked` requests of at most `max_retries`, given whether the last was answered.
pub fn wait_for_docker(asked: u32, answered: bool, max_retries: u32) -> (r: WaitNext)
    ensures
        r is Ready <==> asked > 0 && answered,
        r is GiveUp <==> !(asked > 0 && answered) && asked >= max_retries,
        r is Ask ==> asked == 0,
        r is PauseAndAsk ==> asked > 0 && asked < max_retries,
        if asked > 0 && answered {
            r is Ready
        } else if asked >= max_retries {
            r matches WaitNext::GiveUp(e) && e@ == "Docker not accessible after "@ + decimal(
                max_retries as nat,
            ) + " retries"@
        } else if asked == 0 {
            r is Ask
        } else {
            r is PauseAndAsk
        },
{
    if asked > 0 && answered {
        WaitNext::Ready
    } else if asked >= max_retries {
        let mut s = "Docker not accessible after ".to_owned();
        s.append(u64_text(max_retries as u64).as_str());
        s.append(" retries");
        WaitNext::GiveUp(s)
    } else if asked == 0 {
        WaitNext::Ask
    } else {
        WaitNext::PauseAndAsk
    }
}

// ---------------------------------------------------------------------------
// Containers that run one command
// ---------------------------------------------------------------------------

/// The name of the container of one command, given the number of this process.
pub fn ephemeral_name(pid: u32) -> (r: String)
    ensures
        r@ == "ephemeral-"@ + decimal(pid as nat),
{
    let mut s = "ephemeral-".to_owned();
    s.append(u64_text(pid as u64).as_str());
    s
}

/// The binds of volumes, given as pairs of source and destination.
pub open spec fn bind_texts(v: Seq<(String, String)>) -> Seq<Seq<char>> {
    Seq::new(v.len(), |i: int| (v[i].0)@ + ":"@ + (v[i].1)@)
}

/// The binds of volumes: none where there are no volumes.
pub fn ephemeral_binds(volumes: &Vec<(String, String)>) -> (r: Option<Vec<String>>)
    ensures
        match r {
            Some(b) => volumes@.len() > 0 && views(b@) == bind_texts(volumes@),
            None => volumes@.len() == 0,
        },
{
    let n: usize = volumes.len();
    if n == 0 {
        return None;
    }
    let mut out: Vec<String> = Vec::new();
    let mut i: usize = 0;
    while i < n
        invariant
            n == volumes@.len(),
            i <= n,
            out@.len() == i,
            forall|j: int|
                0 <= j < i ==> (#[trigger] out@[j])@ == (volumes@[j].0)@ + ":"@ + (volumes@[j].1)@,
        decreases n - i,
    {
        let mut s = volumes[i].0.clone();
        s.append(":");
        s.append(volumes[i].1.as_str());
        out.push(s);
        i = i + 1;
    }
    assert(views(out@) =~= bind_texts(volumes@));
    Some(out)
}

/// An action on the way of a container that runs one command.
#[derive(Debug)]
pub enum EphemeralAction {
    /// Is the image there?
    AskImage,
    Pull,
    Create,
    Start,
    /// Wait for an exit code: `Done` says that no more will come.
    Wait,
    /// Remove the container; the message is that of a failure, if there was one.
    Remove(Option<String>),
}

/// What a wait brought.
#[derive(Debug)]
pub enum WaitReport {
    /// The container ended with a code.
    Exited(i64),
    /// The wait failed.
    Trouble(String),
    /// No more will come.
    Over,
}

/// Whether the trouble of a wait says that the container is gone already.
pub open spec fn is_gone(e: Seq<char>) -> bool {
    has_sub(e, "No such container"@) || has_sub(e, "not found"@)
}

/// The failure that a report of a wait shows.
pub open spec fn wait_failure(w: WaitReport) -> Option<Seq<char>> {
    match w {
        WaitReport::Exited(code) => if code == 0 {
            None
        } else {
            Some("Ephemeral container exited with code "@ + signed_decimal(code as int))
        },
        WaitReport::Trouble(e) => if is_gone(e@) {
            None
        } else {
            Some("Error waiting for ephemeral container: "@ + e@)
        },
        WaitReport::Over => None,
    }
}

/// What follows a report of a wait.
pub fn after_wait(w: &WaitReport) -> (r: EphemeralAction)
    ensures
        r is Wait <==> wait_failure(*w) is None && !(*w is Over),
        match wait_failure(*w) {
            Some(e) => r matches EphemeralAction::Remove(m) && crate::text::opt_view(m) == Some(e),
            None => if *w is Over {
                r == EphemeralAction::Remove(None)
            } else {
                r is Wait
            },
        },
{
    match w {
        WaitReport::Exited(code) => if *code == 0 {
            EphemeralAction::Wait
        } else {
            let mut s = "Ephemeral container exited with code ".to_owned();
            s.append(i64_text(*code).as_str());
            EphemeralAction::Remove(Some(s))
        },
        WaitReport::Trouble(e) => if contains(e.as_str(), "No such container") || contains(
            e.as_str(),
            "not found",
        ) {
            EphemeralAction::Wait
        } else {
            let mut s = "Error waiting for ephemeral container: ".to_owned();
            s.append(e.as_str());
            EphemeralAction::Remove(Some(s))
        },
        WaitReport::Over => EphemeralAction::Remove(None),
    }
}

/// The step that follows an action other than a wait.
pub open spec fn ephemeral_next(a: EphemeralAction, ev: Event) -> StepView<EphemeralAction, ()> {
    match a {
        EphemeralAction::AskImage => if good(ev) {
            (silent(), NextView::Go(EphemeralAction::Create))
        } else {
            (silent(), NextView::Go(EphemeralAction::Pull))
        },
        EphemeralAction::Pull => if good(ev) {
            (silent(), NextView::Go(EphemeralAction::Create))
        } else {
            (silent(), NextView::Fail(reason(ev)))
        },
        EphemeralAction::Create => if good(ev) {
            (silent(), NextView::Go(EphemeralAction::Start))
        } else {
            (silent(), NextView::Fail("Failed to create ephemeral container"@))
        },
        EphemeralAction::Start => if good(ev) {
            (silent(), NextView::Go(EphemeralAction::Wait))
        } else {
            (silent(), NextView::Fail("Failed to start ephemeral container"@))
        },
        EphemeralAction::Wait => (silent(), NextView::Go(EphemeralAction::Wait)),
        EphemeralAction::Remove(m) => match m {
            Some(e) => (silent(), NextView::Fail(e@)),
            None => (silent(), NextView::Done(())),
        },
    }
}

/// The step that follows an action; what a wait brings is read by [`after_wait`].
pub fn run_ephemeral_container(a: EphemeralAction, ev: &Event) -> (r: Step<EphemeralAction, ()>)
    ensures
        r@ == ephemeral_next(a, *ev),
{
    match a {
        EphemeralAction::AskImage => if ev.is_good() {
            go(EphemeralAction::Create)
        } else {
            go(EphemeralAction::Pull)
        },
        EphemeralAction::Pull => if ev.is_good() {
            go(EphemeralAction::Create)
        } else {
            fail(ev)
        },
        EphemeralAction::Create => if ev.is_good() {
            go(EphemeralAction::Start)
        } else {
            Step {
                lines: no_lines(),
                next: Next::Fail("Failed to create ephemeral container".to_owned()),
            }
        },
        EphemeralAction::Start => if ev.is_good() {
            go(EphemeralAction::Wait)
        } else {
            Step {
                lines: no_lines(),
                next: Next::Fail("Failed to start ephemeral container".to_owned()),
            }
        },
        EphemeralAction::Wait => go(EphemeralAction::Wait),
        EphemeralAction::Remove(m) => match m {
            Some(e) => Step { lines: no_lines(), next: Next::Fail(e) },
            None => done(()),
        },
    }
}

/// A wait for a container of one command ends with its removal: it goes on only after reports
/// that show no failure, and it never ends the operation by itself.
pub proof fn law_one_command_containers_are_removed(w: WaitReport)
    ensures
        wait_failure(w) is Some ==> !(w is Over),
        ephemeral_next(EphemeralAction::Remove(None), Event::Done).1 == NextView::<
            EphemeralAction,
            (),
        >::Done(()),
        forall|a: EphemeralAction, ev: Event| #[trigger]
            ephemeral_next(a, ev).1 is Done ==> a is Remove,
{
}

/// A container of one command goes its way in order: its image is pulled exactly where it is missing,
/// and each action follows only where the one before it went well; it ends well only where it was
/// removed without a failure before.
pub proof fn law_one_command_goes_on(a: EphemeralAction, ev: Event)
    ensures
        ephemeral_next(a, ev).1 matches NextView::Go(b) ==> match b {
            EphemeralAction::AskImage => false,
            EphemeralAction::Pull => a is AskImage && !good(ev),
            EphemeralAction::Create => good(ev) && (a is AskImage || a is Pull),
            EphemeralAction::Start => a is Create && good(ev),
            EphemeralAction::Wait => a is Wait || (a is Start && good(ev)),
            EphemeralAction::Remove(_) => false,
        },
        ephemeral_next(a, ev).1 is Done <==> a == EphemeralAction::Remove(None),
        ephemeral_next(a, ev).1 is Fail <==> (a matches EphemeralAction::Remove(m) && m is Some) || (
        !good(ev) && (a is Pull || a is Create || a is Start)),
{
}

/// A command fails exactly where it ended with a code other than nothing, or where the wait for it
/// failed although the container is not gone.
pub proof fn law_exit_codes_decide(w: WaitReport)
    ensures
        wait_failure(w) is Some <==> (w matches WaitReport::Exited(code) && code != 0) || (
        w matches WaitReport::Trouble(e) && !has_sub(e@, "No such container"@) && !has_sub(
            e@,
            "not found"@,
        )),
{
}

/// A plain component names one thing in a directory: it is no path and leads nowhere else.
pub proof fn law_plain_components_are_no_paths(s: Seq<char>, i: int)
    requires
        plain_component(s),
    ensures
        s.len() > 0 && s != "."@ && s != ".."@,
        0 <= i < s.len() ==> s[i] != '/' && s[i] != '\\' && s[i] != ':' && s[i] != '\0',
{
}

} // verus!
