//! Taking a program with its libraries out of an image, for a cluster that has no package manager.

use vstd::prelude::*;
use crate::machine::{in_full, Trouble, TroubleView};
use crate::number::{decimal, u64_text};
use crate::text::{no_texts, push_text, views};

verus! {

/// The image that the program is taken from.
pub const SOCAT_IMAGE: &'static str = "alpine/socat";

/// The script that starts the program with its libraries.
pub const SOCAT_SCRIPT: &'static str =
    "#!/bin/sh\nLD_LIBRARY_PATH=/opt/socat exec /opt/socat/socat1 \"$@\"\n";

/// Where the script goes.
pub const SOCAT_PATH: &'static str = "/usr/local/bin/socat";

/// How many files are copied.
pub const SOCAT_FILES: usize = 5;

/// The file with an index among those that are copied: where it comes from and where it goes.
pub open spec fn socat_file(i: int) -> (Seq<char>, Seq<char>) {
    if i == 0 {
        ("/usr/bin/socat1"@, "/opt/socat/socat1"@)
    } else if i == 1 {
        ("/usr/lib/libreadline.so.8.3"@, "/opt/socat/libreadline.so.8"@)
    } else if i == 2 {
        ("/usr/lib/libssl.so.3"@, "/opt/socat/libssl.so.3"@)
    } else if i == 3 {
        ("/usr/lib/libcrypto.so.3"@, "/opt/socat/libcrypto.so.3"@)
    } else {
        ("/usr/lib/libncursesw.so.6.5"@, "/opt/socat/libncursesw.so.6"@)
    }
}

/// The file with an index among those that are copied: where it comes from and where it goes.
pub fn file_to_copy(i: usize) -> (r: (&'static str, &'static str))
    requires
        i < SOCAT_FILES,
    ensures
        (r.0@, r.1@) == socat_file(i as int),
{
    if i == 0 {
        ("/usr/bin/socat1", "/opt/socat/socat1")
    } else if i == 1 {
        ("/usr/lib/libreadline.so.8.3", "/opt/socat/libreadline.so.8")
    } else if i == 2 {
        ("/usr/lib/libssl.so.3", "/opt/socat/libssl.so.3")
    } else if i == 3 {
        ("/usr/lib/libcrypto.so.3", "/opt/socat/libcrypto.so.3")
    } else {
        ("/usr/lib/libncursesw.so.6.5", "/opt/socat/libncursesw.so.6")
    }
}

/// The name of the container that the files are taken from, given the number of this process.
pub fn source_name(pid: u32) -> (r: String)
    ensures
        r@ == "socat-extract-"@ + decimal(pid as nat),
{
    let mut s = "socat-extract-".to_owned();
    s.append(u64_text(pid as u64).as_str());
    s
}

/// The command that makes the directories of the files.
pub fn directories_command() -> (r: Vec<String>)
    ensures
        views(r@) == seq!["mkdir"@, "-p"@, "/opt/socat"@, "/usr/local/bin"@],
{
    let mut v = no_texts();
    push_text(&mut v, "mkdir");
    push_text(&mut v, "-p");
    push_text(&mut v, "/opt/socat");
    push_text(&mut v, "/usr/local/bin");
    assert(views(v@) =~= seq!["mkdir"@, "-p"@, "/opt/socat"@, "/usr/local/bin"@]);
    v
}

/// An action of an extraction.
#[derive(Debug)]
pub enum ExtractAction {
    /// Create the container that the files are taken from.
    CreateSource,
    MakeDirectories,
    /// Copy the file with an index.
    Copy(usize),
    /// Put the script into the cluster.
    WriteScript,
    /// Remove the container that the files were taken from; the failure is that of the extraction,
    /// if there was one.
    RemoveSource(Option<Trouble>),
}

/// What follows an action.
#[derive(Debug)]
pub enum ExtractNext {
    Go(ExtractAction),
    Done,
    Fail(Trouble),
}

/// An action of an extraction, as a value.
pub enum ExtractView {
    CreateSource,
    MakeDirectories,
    Copy(int),
    WriteScript,
    RemoveSource(Option<TroubleView>),
}

/// What follows an action, as a value.
pub enum ExtractNextView {
    Go(ExtractView),
    Done,
    Fail(TroubleView),
}

impl View for ExtractAction {
    type V = ExtractView;

    open spec fn view(&self) -> ExtractView {
        match *self {
            ExtractAction::CreateSource => ExtractView::CreateSource,
            ExtractAction::MakeDirectories => ExtractView::MakeDirectories,
            ExtractAction::Copy(i) => ExtractView::Copy(i as int),
            ExtractAction::WriteScript => ExtractView::WriteScript,
            ExtractAction::RemoveSource(t) => ExtractView::RemoveSource(
                match t {
                    Some(x) => Some(x@),
                    None => None,
                },
            ),
        }
    }
}

impl View for ExtractNext {
    type V = ExtractNextView;

    open spec fn view(&self) -> ExtractNextView {
        match *self {
            ExtractNext::Go(a) => ExtractNextView::Go(a@),
            ExtractNext::Done => ExtractNextView::Done,
            ExtractNext::Fail(t) => ExtractNextView::Fail(t@),
        }
    }
}

/// A failure that another has caused.
pub open spec fn in_context(message: Seq<char>, t: TroubleView) -> TroubleView {
    TroubleView { message, cause: Some(in_full(t)) }
}

/// The failure that an outcome shows.
pub open spec fn failure_of(r: Result<(), Trouble>) -> Option<TroubleView> {
    match r {
        Ok(_) => None,
        Err(t) => Some(t@),
    }
}

/// What follows an action, given the name of the cluster's container and what came of the action.
/// The first copy that fails is the last, and what is left of an extraction is removed whatever
/// came of it.
pub open spec fn extract_next(
    container: Seq<char>,
    a: ExtractView,
    failure: Option<TroubleView>,
) -> ExtractNextView {
    match a {
        ExtractView::CreateSource => match failure {
            Some(t) => ExtractNextView::Fail(
                in_context("Failed to create temp container from "@ + SOCAT_IMAGE@, t),
            ),
            None => ExtractNextView::Go(ExtractView::MakeDirectories),
        },
        ExtractView::MakeDirectories => ExtractNextView::Go(ExtractView::Copy(0)),
        ExtractView::Copy(i) => match failure {
            Some(t) => ExtractNextView::Go(ExtractView::RemoveSource(Some(t))),
            None => if i + 1 < SOCAT_FILES {
                ExtractNextView::Go(ExtractView::Copy(i + 1))
            } else {
                ExtractNextView::Go(ExtractView::WriteScript)
            },
        },
        ExtractView::WriteScript => match failure {
            Some(t) => ExtractNextView::Go(
                ExtractView::RemoveSource(
                    Some(in_context("Failed to create socat wrapper script"@, t)),
                ),
            ),
            None => ExtractNextView::Go(ExtractView::RemoveSource(None)),
        },
        ExtractView::RemoveSource(earlier) => match earlier {
            Some(t) => ExtractNextView::Fail(
                in_context("Failed to install socat in "@ + container, t),
            ),
            None => ExtractNextView::Done,
        },
    }
}

fn with_context(message: String, t: &Trouble) -> (r: Trouble)
    ensures
        r@ == in_context(message@, t@),
{
    Trouble { message, cause: Some(t.told_in_full()) }
}

/// What follows an action, given the name of the cluster's container and what came of the action.
pub fn extract_socat(container: &str, a: ExtractAction, outcome: Result<(), Trouble>) -> (r:
    ExtractNext)
    ensures
        r@ == extract_next(container@, a@, failure_of(outcome)),
{
    match a {
        ExtractAction::CreateSource => match outcome {
            Err(t) => {
                let mut s = "Failed to create temp container from ".to_owned();
                s.append(SOCAT_IMAGE);
                ExtractNext::Fail(with_context(s, &t))
            },
            Ok(_) => ExtractNext::Go(ExtractAction::MakeDirectories),
        },
        ExtractAction::MakeDirectories => ExtractNext::Go(ExtractAction::Copy(0)),
        ExtractAction::Copy(i) => match outcome {
            Err(t) => ExtractNext::Go(ExtractAction::RemoveSource(Some(t))),
            Ok(_) => if i < SOCAT_FILES - 1 {
                ExtractNext::Go(ExtractAction::Copy(i + 1))
            } else {
                ExtractNext::Go(ExtractAction::WriteScript)
            },
        },
        ExtractAction::WriteScript => match outcome {
            Err(t) => {
                let e = with_context("Failed to create socat wrapper script".to_owned(), &t);
                ExtractNext::Go(ExtractAction::RemoveSource(Some(e)))
            },
            Ok(_) => ExtractNext::Go(ExtractAction::RemoveSource(None)),
        },
        ExtractAction::RemoveSource(earlier) => match earlier {
            Some(t) => {
                let mut s = "Failed to install socat in ".to_owned();
                s.append(container);
                ExtractNext::Fail(with_context(s, &t))
            },
            None => ExtractNext::Done,
        },
    }
}

/// How many actions can follow an action.
pub open spec fn actions_left(a: ExtractView) -> int {
    match a {
        ExtractView::CreateSource => SOCAT_FILES + 3,
        ExtractView::MakeDirectories => SOCAT_FILES + 2,
        ExtractView::Copy(i) => if i < SOCAT_FILES {
            SOCAT_FILES + 1 - i
        } else {
            2
        },
        ExtractView::WriteScript => 1,
        ExtractView::RemoveSource(_) => 0,
    }
}

/// An extraction ends: every action leaves fewer to come.
pub proof fn law_extraction_ends(container: Seq<char>, a: ExtractView, failure: Option<TroubleView>)
    ensures
        extract_next(container, a, failure) matches ExtractNextView::Go(b) ==> 0 <= actions_left(b)
            < actions_left(a),
{
}

/// Every file that an extraction asks for is one of those that are copied.
pub proof fn law_copied_files_exist(container: Seq<char>, a: ExtractView, failure: Option<TroubleView>)
    requires
        a matches ExtractView::Copy(i) ==> 0 <= i,
    ensures
        extract_next(container, a, failure) matches ExtractNextView::Go(b) ==> (
        b matches ExtractView::Copy(i) ==> 0 <= i < SOCAT_FILES),
{
}

/// Once the container that the files are taken from has been created, an extraction ends only
/// with its removal, and it fails exactly where something before the removal has failed.
pub proof fn law_source_container_is_removed(
    container: Seq<char>,
    a: ExtractView,
    failure: Option<TroubleView>,
)
    requires
        !(a is CreateSource),
    ensures
        !(extract_next(container, a, failure) is Go) <==> a is RemoveSource,
        a matches ExtractView::RemoveSource(earlier) ==> (extract_next(container, a, failure)
            is Done <==> earlier is None),
        (a is Copy || a is WriteScript) && failure is Some ==> (extract_next(container, a, failure)
            matches ExtractNextView::Go(b) && (b matches ExtractView::RemoveSource(earlier)
            && earlier is Some)),
{
}

/// An extraction goes on in order: every file is copied, one after another, and the script is written
/// only after the last of them; it ends well only where nothing failed.
pub proof fn law_extraction_copies_every_file(
    container: Seq<char>,
    a: ExtractView,
    failure: Option<TroubleView>,
)
    ensures
        extract_next(container, a, failure) matches ExtractNextView::Go(b) ==> match b {
            ExtractView::CreateSource => false,
            ExtractView::MakeDirectories => a is CreateSource && failure is None,
            ExtractView::Copy(i) => (a is MakeDirectories && i == 0) || (a == ExtractView::Copy(i - 1)
                && failure is None && i < 5),
            ExtractView::WriteScript => (a matches ExtractView::Copy(i) && i >= 4) && failure
                is None,
            ExtractView::RemoveSource(earlier) => (a is Copy && failure is Some && earlier
                == failure) || (a is WriteScript && (earlier is Some <==> failure is Some)),
        },
        extract_next(container, a, failure) is Done <==> a == ExtractView::RemoveSource(None),
        extract_next(container, a, failure) is Fail <==> (a is CreateSource && failure is Some) || (
        a matches ExtractView::RemoveSource(earlier) && earlier is Some),
{
}

/// Every file goes to the directory of the tool, and no two to the same place.
pub proof fn law_files_go_to_places_of_their_own(i: int, j: int)
    requires
        0 <= i < 5,
        0 <= j < 5,
    ensures
        socat_file(i).1 == socat_file(j).1 <==> i == j,
        socat_file(i).0 == socat_file(j).0 <==> i == j,
        crate::text::begins(socat_file(i).1, "/opt/socat/"@),
        crate::text::begins(socat_file(i).0, "/usr/"@),
{
    reveal_strlit("/usr/");
    reveal_strlit("/opt/socat/");
    reveal_strlit("/usr/bin/socat1");
    reveal_strlit("/opt/socat/socat1");
    reveal_strlit("/usr/lib/libreadline.so.8.3");
    reveal_strlit("/opt/socat/libreadline.so.8");
    reveal_strlit("/usr/lib/libssl.so.3");
    reveal_strlit("/opt/socat/libssl.so.3");
    reveal_strlit("/usr/lib/libcrypto.so.3");
    reveal_strlit("/opt/socat/libcrypto.so.3");
    reveal_strlit("/usr/lib/libncursesw.so.6.5");
    reveal_strlit("/opt/socat/libncursesw.so.6");
    assert(socat_file(i).1.subrange(0, 11) =~= "/opt/socat/"@);
    assert(socat_file(i).0.subrange(0, 5) =~= "/usr/"@);
    assert("/usr/lib/libreadline.so.8.3"@[12] == 'r');
    assert("/usr/lib/libncursesw.so.6.5"@[12] == 'n');
    assert("/opt/socat/libreadline.so.8"@[14] == 'r');
    assert("/opt/socat/libncursesw.so.6"@[14] == 'n');
    let (p, q) = (socat_file(i), socat_file(j));
    if i != j {
        assert(p.0.len() != q.0.len() || p.0[12] != q.0[12]);
        assert(p.1.len() != q.1.len() || p.1[14] != q.1[14]);
    }
}

} // verus!
