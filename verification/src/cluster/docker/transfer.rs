//! Files that are put into containers under names of their own, and files that are taken from one
//! container to another.

use vstd::prelude::*;
use crate::cluster::docker::bounds::{goes_out_of_bounds, out_of_bounds};
use crate::cluster::docker::files::{fits_a_header, plain_component, Upload, FILE_MODE};
use crate::machine::{good, reason, Event, Trouble, TroubleView};
use crate::text::{ends, has_sub, no_texts, opt_view, push_text, views};

verus! {

// ---------------------------------------------------------------------------
// Where a file goes
// ---------------------------------------------------------------------------

/// Whether a text is an absolute directory written without detours: each separator once, and
/// nothing after the last component.
pub open spec fn plain_directory(d: Seq<char>) -> bool {
    &&& d.len() > 0 ==> d[0] == '/' && d.last() != '/' && d.last() != '.'
    &&& !has_sub(d, "//"@)
    &&& !d.contains('\\')
    &&& !d.contains(':')
    &&& !d.contains('\0')
}

/// Whether a path names a component in a directory; the root is the empty directory.
pub open spec fn placed_at(path: Seq<char>, dir: Seq<char>, name: Seq<char>) -> bool {
    &&& path == dir + "/"@ + name
    &&& plain_directory(dir)
    &&& plain_component(name)
}

/// A directory, as it is written by itself.
pub open spec fn written(dir: Seq<char>) -> Seq<char> {
    if dir.len() == 0 {
        "/"@
    } else {
        dir
    }
}

/// Whether a path ends in no name.
pub open spec fn nameless(path: Seq<char>) -> bool {
    path == ""@ || path == "/"@ || path == ".."@ || ends(path, "/.."@)
}

/// Calls `std::path::Path::parent`. Of a component in a directory it gives the directory. What
/// other paths give is left open: it depends on how the machine reads paths.
#[verifier::external_body]
fn path_parent(path: &str) -> (r: Option<String>)
    ensures
        forall|d: Seq<char>, n: Seq<char>| #[trigger]
            placed_at(path@, d, n) ==> opt_view(r) == Some(written(d)),
{
    std::path::Path::new(path).parent().map(|p| p.to_string_lossy().into_owned())
}

/// Calls `std::path::Path::file_name`. Of a component in a directory it gives the component, and
/// of the empty path, of the root and of a path that ends in `..` it gives none. What other paths
/// give is left open: it depends on how the machine reads paths.
#[verifier::external_body]
fn path_file_name(path: &str) -> (r: Option<String>)
    ensures
        forall|d: Seq<char>, n: Seq<char>| #[trigger]
            placed_at(path@, d, n) ==> opt_view(r) == Some(n),
        nameless(path@) ==> r is None,
{
    std::path::Path::new(path).file_name().map(|p| p.to_string_lossy().into_owned())
}

/// The failure of a path that names no file.
pub open spec fn bad_destination(path: Seq<char>) -> TroubleView {
    TroubleView { message: "Invalid destination path: "@ + path, cause: None }
}

/// The directory and the name that a path stands for, given its parent and its file name: without
/// a parent the file goes to the root, and without a name it goes nowhere.
pub fn destination(path: &str, parent: Option<String>, name: Option<String>) -> (r: Result<
    (String, String),
    Trouble,
>)
    ensures
        match name {
            Some(n) => r matches Ok(x) && x.1 == n && x.0@ == match parent {
                Some(p) => p@,
                None => "/"@,
            },
            None => r matches Err(t) && t@ == bad_destination(path@),
        },
{
    match name {
        Some(n) => {
            let dir = match parent {
                Some(p) => p,
                None => "/".to_owned(),
            };
            Ok((dir, n))
        },
        None => {
            let mut s = "Invalid destination path: ".to_owned();
            s.append(path);
            Err(Trouble { message: s, cause: None })
        },
    }
}

/// The directory and the name that a path stands for.
pub fn split_destination(path: &str) -> (r: Result<(String, String), Trouble>)
    ensures
        forall|d: Seq<char>, n: Seq<char>| #[trigger]
            placed_at(path@, d, n) ==> (r matches Ok(x) && x.0@ == written(d) && x.1@ == n),
        nameless(path@) ==> r is Err,
        r matches Err(t) ==> t@ == bad_destination(path@),
{
    destination(path, path_parent(path), path_file_name(path))
}

// ---------------------------------------------------------------------------
// Archives of one file
// ---------------------------------------------------------------------------

/// The first file of an archive.
#[derive(Debug)]
pub enum FirstFile {
    /// The archive holds nothing.
    Missing,
    Content(Vec<u8>),
    /// The archive cannot be gone through.
    NoEntries(String),
    /// The first entry cannot be read.
    BadEntry(String),
    /// The content of the first entry cannot be read.
    Unread(String),
}

/// The first file of an archive, as a value.
pub enum FirstFileView {
    Missing,
    Content(Seq<u8>),
    NoEntries(Seq<char>),
    BadEntry(Seq<char>),
    Unread(Seq<char>),
}

impl View for FirstFile {
    type V = FirstFileView;

    open spec fn view(&self) -> FirstFileView {
        match *self {
            FirstFile::Missing => FirstFileView::Missing,
            FirstFile::Content(v) => FirstFileView::Content(v@),
            FirstFile::NoEntries(e) => FirstFileView::NoEntries(e@),
            FirstFile::BadEntry(e) => FirstFileView::BadEntry(e@),
            FirstFile::Unread(e) => FirstFileView::Unread(e@),
        }
    }
}

/// The first file that `tar::Archive` finds in an archive that stays in bounds.
pub uninterp spec fn first_in_archive(archive: Seq<u8>) -> FirstFileView;

/// Calls `tar::Archive::entries`, and reads the first entry, if there is one, to its end. Where the
/// list of holes of a file goes on, the place of the next entry is moved on for each block of it
/// without a test for overflow: archives in which that place may be out of bounds are left out. Of
/// every other archive the outcome is a function of its bytes, as far as the memory of the machine
/// reaches.
#[verifier::external_body]
fn first_file(archive: &Vec<u8>) -> (r: FirstFile)
    requires
        !out_of_bounds(archive@),
    ensures
        r@ == first_in_archive(archive@),
{
    let mut archive = tar::Archive::new(archive.as_slice());
    let mut entries = match archive.entries() {
        Ok(entries) => entries,
        Err(e) => return FirstFile::NoEntries(e.to_string()),
    };
    let mut entry = match entries.next() {
        Some(Ok(entry)) => entry,
        Some(Err(e)) => return FirstFile::BadEntry(e.to_string()),
        None => return FirstFile::Missing,
    };
    let mut content = Vec::new();
    let read = std::io::Read::read_to_end(&mut entry, &mut content);
    read.map_or_else(|e| FirstFile::Unread(e.to_string()), |_| FirstFile::Content(content))
}

/// The archive that `tar::Builder` makes of one header and one content.
pub uninterp spec fn packed(name: Seq<char>, data: Seq<u8>, mode: u32) -> Seq<u8>;

/// Calls `tar::Header::set_path` on a GNU header that gets the size and the mode too,
/// `tar::Builder::append` with it and `tar::Builder::into_inner`. For a plain component that fits
/// into the header it succeeds: the archive is a function of the arguments, it stays in bounds, and
/// its first file reads as the content. A longer component is refused. What other names give is
/// left open: it depends on how the machine reads paths.
#[verifier::external_body]
fn pack(name: &str, data: &Vec<u8>, mode: u32) -> (r: Result<Vec<u8>, String>)
    ensures
        plain_component(name@) && fits_a_header(name@) ==> r is Ok && r->Ok_0@ == packed(
            name@,
            data@,
            mode,
        ),
        plain_component(name@) && fits_a_header(name@) ==> !out_of_bounds(r->Ok_0@)
            && first_in_archive(r->Ok_0@) == FirstFileView::Content(data@),
        plain_component(name@) && !fits_a_header(name@) ==> r is Err && r->Err_0@
            == "provided value is too long when setting path for "@,
{
    let mut builder = tar::Builder::new(Vec::new());
    let mut header = tar::Header::new_gnu();
    header.set_path(name).map_err(|e| e.to_string())?;
    header.set_size(data.len() as u64);
    header.set_mode(mode);
    header.set_cksum();
    builder.append(&header, data.as_slice()).map_err(|e| e.to_string())?;
    builder.into_inner().map_err(|e| e.to_string())
}

/// Calls `tar::Builder::into_inner` on a builder that was given nothing: two blocks of zeros come
/// out, in which no file is found.
#[verifier::external_body]
fn pack_nothing() -> (r: Result<Vec<u8>, String>)
    ensures
        r is Ok,
        r->Ok_0@ == Seq::new(1024, |i: int| 0u8),
        first_in_archive(r->Ok_0@) == FirstFileView::Missing,
{
    tar::Builder::new(Vec::new()).into_inner().map_err(|e| e.to_string())
}

/// The failure of an archive, with nothing said of its cause.
fn plain_trouble(e: String) -> (r: Trouble)
    ensures
        r@ == (TroubleView { message: e@, cause: None }),
{
    Trouble { message: e, cause: None }
}

/// The failure with a message and its cause.
fn trouble_from(message: &str, e: String) -> (r: Trouble)
    ensures
        r@ == (TroubleView { message: message@, cause: Some(e@) }),
{
    Trouble { message: message.to_owned(), cause: Some(e) }
}

// ---------------------------------------------------------------------------
// Putting a file into a container
// ---------------------------------------------------------------------------

/// Whether a result is the upload of an archive to a directory of a container.
pub open spec fn uploads(
    r: Result<Upload, Trouble>,
    container: Seq<char>,
    dir: Seq<char>,
    body: Seq<u8>,
) -> bool {
    r matches Ok(u) && u.container@ == container && u.path@ == dir && u.body@ == body
}

/// Whether a result is the failure of a name that is too long for an archive.
pub open spec fn refuses_the_name(r: Result<Upload, Trouble>) -> bool {
    r matches Err(t) && t@ == (TroubleView {
        message: "provided value is too long when setting path for "@,
        cause: None,
    })
}

/// The upload that puts a content into a container, under a path and with a mode.
pub fn upload_file_content(container: &str, dst_path: &str, content: &Vec<u8>, mode: u32) -> (r:
    Result<Upload, Trouble>)
    ensures
        forall|d: Seq<char>, n: Seq<char>| #[trigger]
            placed_at(dst_path@, d, n) ==> if fits_a_header(n) {
                &&& uploads(r, container@, written(d), packed(n, content@, mode))
                &&& !out_of_bounds(r->Ok_0.body@)
                &&& first_in_archive(r->Ok_0.body@) == FirstFileView::Content(content@)
            } else {
                refuses_the_name(r)
            },
        nameless(dst_path@) ==> (r matches Err(t) && t@ == bad_destination(dst_path@)),
        r matches Ok(u) ==> u.container@ == container@,
{
    let (dir, name) = match split_destination(dst_path) {
        Ok(x) => x,
        Err(t) => return Err(t),
    };
    match pack(name.as_str(), content, mode) {
        Ok(body) => Ok(Upload { container: container.to_owned(), path: dir, body }),
        Err(e) => Err(plain_trouble(e)),
    }
}

/// The failure of an upload of a content that a daemon refused.
pub fn upload_failed(e: String) -> (r: Trouble)
    ensures
        r@ == (TroubleView {
            message: "Failed to upload file to container"@,
            cause: Some(e@),
        }),
{
    trouble_from("Failed to upload file to container", e)
}

// ---------------------------------------------------------------------------
// From one container to another
// ---------------------------------------------------------------------------

/// The failure that the first file of an archive shows.
pub open spec fn reading_failure(first: FirstFileView) -> Option<TroubleView> {
    match first {
        FirstFileView::NoEntries(e) => Some(
            TroubleView { message: "Failed to read tar entries"@, cause: Some(e) },
        ),
        FirstFileView::BadEntry(e) => Some(
            TroubleView { message: "Failed to read tar entry"@, cause: Some(e) },
        ),
        FirstFileView::Unread(e) => Some(TroubleView { message: e, cause: None }),
        _ => None,
    }
}

/// The archive that holds the first file of another under a name, executable by everyone: it is
/// empty where there is none.
pub fn renamed(first: FirstFile, name: &str) -> (r: Result<Vec<u8>, Trouble>)
    ensures
        match first@ {
            FirstFileView::Content(c) => {
                &&& plain_component(name@) && fits_a_header(name@) ==> (r matches Ok(v) && v@
                    == packed(name@, c, FILE_MODE) && !out_of_bounds(v@) && first_in_archive(v@)
                    == first@)
                &&& plain_component(name@) && !fits_a_header(name@) ==> (r matches Err(t) && t@
                    == (TroubleView {
                    message: "provided value is too long when setting path for "@,
                    cause: None,
                }))
            },
            FirstFileView::Missing => r matches Ok(v) && v@ == Seq::new(1024, |i: int| 0u8)
                && !out_of_bounds(v@) && first_in_archive(v@) == first@,
            _ => r matches Err(t) && Some(t@) == reading_failure(first@),
        },
{
    match first {
        FirstFile::Content(c) => match pack(name, &c, FILE_MODE) {
            Ok(v) => Ok(v),
            Err(e) => Err(plain_trouble(e)),
        },
        FirstFile::Missing => match pack_nothing() {
            Ok(v) => Ok(v),
            Err(e) => Err(trouble_from("Failed to finalize tar", e)),
        },
        FirstFile::NoEntries(e) => Err(trouble_from("Failed to read tar entries", e)),
        FirstFile::BadEntry(e) => Err(trouble_from("Failed to read tar entry", e)),
        FirstFile::Unread(e) => Err(plain_trouble(e)),
    }
}

/// The first file of an archive; one that goes out of bounds has none that can be read.
fn read_first(archive: &Vec<u8>) -> (r: FirstFile)
    ensures
        if out_of_bounds(archive@) {
            r@ == FirstFileView::BadEntry("size overflow"@)
        } else {
            r@ == first_in_archive(archive@)
        },
{
    if goes_out_of_bounds(archive) {
        FirstFile::BadEntry("size overflow".to_owned())
    } else {
        first_file(archive)
    }
}

/// Whether a result is what comes of a first file that goes to a name in a directory.
pub open spec fn carries(
    r: Result<Upload, Trouble>,
    first: FirstFileView,
    container: Seq<char>,
    dir: Seq<char>,
    name: Seq<char>,
) -> bool {
    match first {
        FirstFileView::Content(c) => if fits_a_header(name) {
            &&& uploads(r, container, dir, packed(name, c, FILE_MODE))
            &&& !out_of_bounds(r->Ok_0.body@)
            &&& first_in_archive(r->Ok_0.body@) == first
        } else {
            refuses_the_name(r)
        },
        FirstFileView::Missing => {
            &&& uploads(r, container, dir, Seq::new(1024, |i: int| 0u8))
            &&& !out_of_bounds(r->Ok_0.body@)
            &&& first_in_archive(r->Ok_0.body@) == first
        },
        _ => r matches Err(t) && Some(t@) == reading_failure(first),
    }
}

/// The upload that puts the first file of an archive, which was downloaded from a container, into
/// another container under a path. What is uploaded reads as what was downloaded.
pub fn copy_file_between_containers(downloaded: &Vec<u8>, dst_container: &str, dst_path: &str) -> (r:
    Result<Upload, Trouble>)
    ensures
        forall|d: Seq<char>, n: Seq<char>| #[trigger]
            placed_at(dst_path@, d, n) && !out_of_bounds(downloaded@) ==> carries(
                r,
                first_in_archive(downloaded@),
                dst_container@,
                written(d),
                n,
            ),
        forall|d: Seq<char>, n: Seq<char>| #[trigger]
            placed_at(dst_path@, d, n) && out_of_bounds(downloaded@) ==> carries(
                r,
                FirstFileView::BadEntry("size overflow"@),
                dst_container@,
                written(d),
                n,
            ),
        nameless(dst_path@) ==> (r matches Err(t) && t@ == bad_destination(dst_path@)),
        r matches Ok(u) ==> u.container@ == dst_container@,
{
    let (dir, name) = match split_destination(dst_path) {
        Ok(x) => x,
        Err(t) => return Err(t),
    };
    match renamed(read_first(downloaded), name.as_str()) {
        Ok(body) => Ok(Upload { container: dst_container.to_owned(), path: dir, body }),
        Err(t) => Err(t),
    }
}

/// The failure of a download.
pub fn download_failed(e: String) -> (r: Trouble)
    ensures
        r@ == (TroubleView {
            message: "Failed to download from source container"@,
            cause: Some(e@),
        }),
{
    trouble_from("Failed to download from source container", e)
}

/// The failure of an upload of a copy.
pub fn copy_upload_failed(e: String) -> (r: Trouble)
    ensures
        r@ == (TroubleView {
            message: "Failed to upload to destination container"@,
            cause: Some(e@),
        }),
{
    trouble_from("Failed to upload to destination container", e)
}

// ---------------------------------------------------------------------------
// Containers that are created to be read
// ---------------------------------------------------------------------------

/// A container that is created and not started.
#[derive(Debug, Clone)]
pub struct StoppedContainer {
    pub name: String,
    pub image: String,
    pub cmd: Vec<String>,
}

/// The container of an image that would do nothing if it were started.
pub fn stopped_container(name: &str, image: &str) -> (r: StoppedContainer)
    ensures
        r.name@ == name@,
        r.image@ == image@,
        views(r.cmd@) == seq!["true"@],
{
    let mut cmd = no_texts();
    push_text(&mut cmd, "true");
    assert(views(cmd@) =~= seq!["true"@]);
    StoppedContainer { name: name.to_owned(), image: image.to_owned(), cmd }
}

/// An action on the way to a container that is not started.
#[derive(Debug, Clone, Copy, PartialEq, Eq, Structural)]
pub enum StoppedAction {
    /// Is the image there?
    AskImage,
    Pull,
    Create,
}

/// What follows an action.
#[derive(Debug)]
pub enum StoppedNext {
    Go(StoppedAction),
    Done,
    Fail(Trouble),
}

/// Whether this is what follows an action, for a container with a name.
pub open spec fn stopped_next(name: Seq<char>, a: StoppedAction, ev: Event, r: StoppedNext) -> bool {
    match a {
        StoppedAction::AskImage => r == StoppedNext::Go(
            if good(ev) {
                StoppedAction::Create
            } else {
                StoppedAction::Pull
            },
        ),
        StoppedAction::Pull => if good(ev) {
            r == StoppedNext::Go(StoppedAction::Create)
        } else {
            r matches StoppedNext::Fail(t) && t@ == (TroubleView {
                message: reason(ev),
                cause: None,
            })
        },
        StoppedAction::Create => if good(ev) {
            r is Done
        } else {
            r matches StoppedNext::Fail(t) && t@ == (TroubleView {
                message: "Failed to create container "@ + name,
                cause: Some(reason(ev)),
            })
        },
    }
}

/// What follows an action, for a container with a name.
pub fn create_container_stopped(name: &str, a: StoppedAction, ev: &Event) -> (r: StoppedNext)
    ensures
        stopped_next(name@, a, *ev, r),
{
    match a {
        StoppedAction::AskImage => if ev.is_good() {
            StoppedNext::Go(StoppedAction::Create)
        } else {
            StoppedNext::Go(StoppedAction::Pull)
        },
        StoppedAction::Pull => if ev.is_good() {
            StoppedNext::Go(StoppedAction::Create)
        } else {
            StoppedNext::Fail(plain_trouble(ev.why()))
        },
        StoppedAction::Create => if ev.is_good() {
            StoppedNext::Done
        } else {
            let mut s = "Failed to create container ".to_owned();
            s.append(name);
            StoppedNext::Fail(trouble_from(s.as_str(), ev.why()))
        },
    }
}

// ---------------------------------------------------------------------------
// Laws
// ---------------------------------------------------------------------------

/// What arrives in the other container reads as what was found in the first, in the directory that was
/// asked for; nothing is uploaded of a file that could not be read.
pub proof fn law_copies_read_as_what_was_found(
    r: Result<Upload, Trouble>,
    first: FirstFileView,
    container: Seq<char>,
    dir: Seq<char>,
    name: Seq<char>,
)
    requires
        carries(r, first, container, dir, name),
    ensures
        r is Ok ==> first_in_archive(r->Ok_0.body@) == first && r->Ok_0.container@ == container
            && r->Ok_0.path@ == dir,
        r is Ok <==> first is Missing || first is Content && fits_a_header(name),
{
}

/// A file that cannot be read is a failure, and only that.
pub proof fn law_unread_files_fail(first: FirstFileView)
    ensures
        reading_failure(first) is None <==> first is Missing || first is Content,
        first matches FirstFileView::BadEntry(e) ==> reading_failure(first)->0.cause == Some(e),
        first matches FirstFileView::NoEntries(e) ==> reading_failure(first)->0.cause == Some(e),
        first matches FirstFileView::Unread(e) ==> reading_failure(first)->0.message == e,
{
}

/// The directory of a file in the root is the root, any other is as it is written.
pub proof fn law_root_is_a_directory(dir: Seq<char>)
    ensures
        written(dir).len() > 0,
        dir.len() > 0 ==> written(dir) == dir,
        dir.len() == 0 ==> written(dir) == "/"@,
{
    reveal_strlit("/");
}

/// A container is created only from an image that is there or was pulled, and an image that is not
/// there is pulled.
pub proof fn law_containers_are_made_of_images(
    name: Seq<char>,
    a: StoppedAction,
    ev: Event,
    r: StoppedNext,
    b: StoppedAction,
)
    requires
        stopped_next(name, a, ev, r),
    ensures
        r == StoppedNext::Go(b) <==> match b {
            StoppedAction::AskImage => false,
            StoppedAction::Pull => a == StoppedAction::AskImage && !good(ev),
            StoppedAction::Create => (a == StoppedAction::AskImage || a == StoppedAction::Pull) && good(
                ev,
            ),
        },
        r is Done <==> a == StoppedAction::Create && good(ev),
        r is Fail <==> a != StoppedAction::AskImage && !good(ev),
{
}

} // verus!
