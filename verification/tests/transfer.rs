use std::io::Read;

use k3dev::cluster::docker::bounds::goes_out_of_bounds;
use k3dev::cluster::docker::transfer::{
    copy_file_between_containers, copy_upload_failed, create_container_stopped, destination,
    download_failed, renamed, split_destination, stopped_container, upload_failed,
    upload_file_content, FirstFile, StoppedAction, StoppedNext,
};
use k3dev::cluster::k3s::extract::{
    directories_command, extract_socat, file_to_copy, source_name, ExtractAction, ExtractNext,
    SOCAT_FILES, SOCAT_IMAGE, SOCAT_PATH, SOCAT_SCRIPT,
};
use k3dev::machine::{Event, Trouble};

fn only_file(archive: &[u8]) -> (String, u32, Vec<u8>) {
    let mut archive = tar::Archive::new(archive);
    let mut entries = archive.entries().unwrap();
    let mut e = entries.next().unwrap().unwrap();
    let name = e.path().unwrap().to_string_lossy().to_string();
    let mode = e.header().mode().unwrap();
    let mut content = Vec::new();
    e.read_to_end(&mut content).unwrap();
    assert!(entries.next().is_none());
    (name, mode, content)
}

fn some(s: &str) -> Option<String> {
    Some(s.to_string())
}

#[test]
fn paths_are_split_into_directory_and_name() {
    for (path, dir, name) in [
        ("/opt/socat/socat1", "/opt/socat", "socat1"),
        ("/tool", "/", "tool"),
        ("/usr/local/bin/socat", "/usr/local/bin", "socat"),
    ] {
        assert_eq!(split_destination(path).unwrap(), (dir.to_string(), name.to_string()));
    }
    for path in ["", "/", "..", "/opt/.."] {
        let t = split_destination(path).unwrap_err();
        assert_eq!(t.message, format!("Invalid destination path: {path}"));
        assert!(t.cause.is_none());
    }
    assert_eq!(destination("x", None, some("x")).unwrap(), ("/".to_string(), "x".to_string()));
    assert!(destination("x", some("/"), None).is_err());
}

#[test]
fn contents_are_uploaded_under_their_names() {
    let data = SOCAT_SCRIPT.as_bytes().to_vec();
    let u = upload_file_content("k3s", SOCAT_PATH, &data, 0o644).unwrap();
    assert_eq!((u.container.as_str(), u.path.as_str()), ("k3s", "/usr/local/bin"));
    assert_eq!(only_file(&u.body), ("socat".to_string(), 0o644, data.clone()));
    let long = format!("/{}", "x".repeat(100));
    assert!(upload_file_content("k3s", &long, &data, 0o644).is_ok());
    let longer = format!("/{}", "x".repeat(101));
    let t = upload_file_content("k3s", &longer, &data, 0o644).unwrap_err();
    assert_eq!(t.told_in_full(), "provided value is too long when setting path for ");
    // Bytes are counted, not characters.
    let accents = format!("/{}", "é".repeat(50));
    let u = upload_file_content("k3s", &accents, &data, 0o644).unwrap();
    assert_eq!(only_file(&u.body), ("é".repeat(50), 0o644, data.clone()));
    let t = upload_file_content("k3s", &format!("{accents}x"), &data, 0o644).unwrap_err();
    assert_eq!(t.told_in_full(), "provided value is too long when setting path for ");
    assert_eq!(
        upload_file_content("k3s", "/", &data, 0o644).unwrap_err().message,
        "Invalid destination path: /"
    );
    assert_eq!(
        upload_failed("denied".to_string()).told_in_full(),
        "Failed to upload file to container: denied"
    );
}

#[test]
fn copies_read_as_what_was_downloaded() {
    let data: Vec<u8> = (0..2000u32).map(|i| (i % 251) as u8).collect();
    let from = upload_file_content("source", "/usr/bin/socat1", &data, 0o600).unwrap();
    let u = copy_file_between_containers(&from.body, "k3s", "/opt/socat/socat").unwrap();
    assert_eq!((u.container.as_str(), u.path.as_str()), ("k3s", "/opt/socat"));
    assert_eq!(only_file(&u.body), ("socat".to_string(), 0o755, data));
    for empty in [Vec::new(), vec![0u8; 1024]] {
        let u = copy_file_between_containers(&empty, "k3s", "/opt/x").unwrap();
        assert_eq!(u.body, vec![0u8; 1024]);
    }
    let mut broken = from.body.clone();
    broken[0] ^= 1;
    let t = copy_file_between_containers(&broken, "k3s", "/opt/x").unwrap_err();
    assert_eq!(t.told_in_full(), "Failed to read tar entry: archive header checksum mismatch");
    let t = copy_file_between_containers(&vec![1u8; 100], "k3s", "/opt/x").unwrap_err();
    assert_eq!(t.told_in_full(), "Failed to read tar entry: failed to read entire block");
    assert_eq!(
        copy_file_between_containers(&broken, "k3s", "/opt/..").unwrap_err().message,
        "Invalid destination path: /opt/.."
    );
}

#[test]
fn only_the_first_file_is_copied() {
    let mut builder = tar::Builder::new(Vec::new());
    for (name, data) in [("a", &b"first"[..]), ("b", &b"second"[..])] {
        let mut header = tar::Header::new_gnu();
        header.set_size(data.len() as u64);
        header.set_mode(0o644);
        builder.append_data(&mut header, name, data).unwrap();
    }
    let archive = builder.into_inner().unwrap();
    let u = copy_file_between_containers(&archive, "k3s", "/opt/c").unwrap();
    assert_eq!(only_file(&u.body), ("c".to_string(), 0o755, b"first".to_vec()));
}

#[test]
fn archives_out_of_bounds_are_refused() {
    let mut header = tar::Header::new_gnu();
    header.set_path("x").unwrap();
    header.set_mode(0o644);
    header.set_entry_type(tar::EntryType::GNUSparse);
    header.as_gnu_mut().unwrap().set_is_extended(true);
    header.as_gnu_mut().unwrap().set_real_size(0);
    let mut large = header.clone();
    large.set_size(0xffff_ffff_ffff_fc00);
    large.set_cksum();
    let mut archive = large.as_bytes().to_vec();
    archive.extend(vec![0u8; 512]);
    assert!(goes_out_of_bounds(&archive));
    let t = copy_file_between_containers(&archive, "k3s", "/opt/x").unwrap_err();
    assert_eq!(t.told_in_full(), "Failed to read tar entry: size overflow");
    // A size in digits is no trouble, and neither is a file without holes.
    header.set_size(0);
    header.set_cksum();
    let mut small = header.as_bytes().to_vec();
    small.extend(vec![0u8; 1024]);
    assert!(!goes_out_of_bounds(&small));
    let u = copy_file_between_containers(&small, "k3s", "/opt/x").unwrap();
    assert_eq!(only_file(&u.body).2, Vec::<u8>::new());
    assert!(!goes_out_of_bounds(&vec![83u8; 511]));
    assert!(!goes_out_of_bounds(&vec![83u8; 512]));
}

/// An entry that describes the next one.
fn describing(kind: tar::EntryType, data: &[u8]) -> Vec<u8> {
    let mut header = tar::Header::new_gnu();
    header.set_entry_type(kind);
    header.set_size(data.len() as u64);
    header.set_cksum();
    let mut v = header.as_bytes().to_vec();
    v.extend(data);
    v.resize(v.len().div_ceil(512) * 512, 0);
    v
}

/// A file with a size of its own.
fn file_of(kind: tar::EntryType, extended: bool, size: u64) -> tar::Header {
    let mut header = tar::Header::new_gnu();
    header.set_path("x").unwrap();
    header.set_mode(0o644);
    header.set_entry_type(kind);
    header.set_size(size);
    header.as_gnu_mut().unwrap().set_is_extended(extended);
    header.set_cksum();
    header
}

#[test]
fn descriptions_are_passed_by() {
    let sparse = tar::EntryType::GNUSparse;
    let mut holes = file_of(sparse, true, 0);
    holes.as_gnu_mut().unwrap().set_real_size(0);
    holes.set_cksum();
    let mut holes = holes.as_bytes().to_vec();
    holes.extend(vec![0u8; 1024]);
    // Attributes that do not hold a size, and names, change nothing.
    for (kind, data) in [
        (tar::EntryType::XHeader, &b""[..]),
        (tar::EntryType::XHeader, &b"12 path=abc\n"[..]),
        (tar::EntryType::GNULongName, &b"a size=7\0"[..]),
        (tar::EntryType::GNULongLink, &b"b"[..]),
    ] {
        let mut archive = describing(kind, data);
        assert!(!goes_out_of_bounds(&archive));
        archive.extend(&holes);
        assert!(!goes_out_of_bounds(&archive));
        let u = copy_file_between_containers(&archive, "k3s", "/opt/x").unwrap();
        assert_eq!(only_file(&u.body).2, Vec::<u8>::new());
    }
    // A size among the attributes does.
    let size = describing(tar::EntryType::XHeader, b"29 size=18446744073709550592\n");
    let mut archive = size.clone();
    archive.extend(&holes);
    assert!(goes_out_of_bounds(&archive));
    let t = copy_file_between_containers(&archive, "k3s", "/opt/x").unwrap_err();
    assert_eq!(t.told_in_full(), "Failed to read tar entry: size overflow");
    // It holds for what is behind the next description, too.
    let mut archive = size.clone();
    archive.extend(describing(tar::EntryType::GNULongName, b"name\0"));
    archive.extend(&holes);
    assert!(goes_out_of_bounds(&archive));
    // And so does a size that is not written in digits.
    let mut archive = describing(tar::EntryType::GNULongName, &[b'n'; 600]);
    archive.extend(file_of(sparse, true, 1 << 40).as_bytes());
    assert!(goes_out_of_bounds(&archive));
    let mut archive = describing(tar::EntryType::GNULongName, &[b'n'; 512]);
    archive.extend(file_of(sparse, false, 1 << 40).as_bytes());
    assert!(!goes_out_of_bounds(&archive));
}

#[test]
fn described_files_are_copied() {
    // What follows the first header is content, whatever it looks like.
    let mut looks = file_of(tar::EntryType::GNUSparse, true, 1 << 40).as_bytes().to_vec();
    looks.extend(b"and more");
    let mut file = file_of(tar::EntryType::Regular, false, looks.len() as u64).as_bytes().to_vec();
    file.extend(&looks);
    file.resize(file.len().div_ceil(512) * 512 + 1024, 0);
    for descriptions in [
        vec![],
        vec![describing(tar::EntryType::GNULongName, &[b'n'; 150])],
        vec![describing(tar::EntryType::XHeader, b"13 path=name\n")],
        vec![describing(tar::EntryType::XHeader, b"12 size=520\n")],
        vec![
            describing(tar::EntryType::GNULongName, b"name\0"),
            describing(tar::EntryType::XHeader, b"14 path=names\n"),
        ],
    ] {
        let mut archive = descriptions.concat();
        archive.extend(&file);
        assert!(!goes_out_of_bounds(&archive));
        let u = copy_file_between_containers(&archive, "k3s", "/opt/x").unwrap();
        assert_eq!(only_file(&u.body), ("x".to_string(), 0o755, looks.clone()));
        // A copy is an archive that can be copied again.
        assert!(!goes_out_of_bounds(&u.body));
        let again = copy_file_between_containers(&u.body, "k3s", "/opt/x").unwrap();
        assert_eq!(again.body, u.body);
    }
    // A description of nothing is an entry that cannot be read.
    let archive = describing(tar::EntryType::GNULongName, b"name\0");
    let t = copy_file_between_containers(&archive, "k3s", "/opt/x").unwrap_err();
    assert_eq!(
        t.told_in_full(),
        "Failed to read tar entry: members found describing a future member but no future member found"
    );
}

#[test]
fn sizes_of_descriptions_are_read() {
    let sparse = file_of(tar::EntryType::GNUSparse, true, 1 << 40);
    let behind = |size: &[u8], blocks: usize| {
        let mut archive = describing(tar::EntryType::GNULongName, b"");
        archive[124..124 + size.len()].copy_from_slice(size);
        archive.extend(vec![0u8; 512 * blocks]);
        archive.extend(sparse.as_bytes());
        goes_out_of_bounds(&archive)
    };
    assert!(behind(b"00000000000\0", 0));
    assert!(behind(b"00000001000\0", 1));
    assert!(behind(b"00000001001\0", 2));
    assert!(!behind(b"00000001001\0", 1));
    assert!(behind(b" \t+1000 \0zzzz", 1));
    assert!(behind(b"777         ", 1));
    assert!(!behind(b"777777777777", 1));
    // No numbers.
    for s in [&b"            "[..], b"+\0", b"\0", b"8\0", b"-0\0", b"1 0\0", b"++1\0"] {
        assert!(!behind(s, 0), "{s:?}");
        assert!(!behind(s, 1), "{s:?}");
    }
    // Bytes in place of digits.
    assert!(behind(&[128, 0, 0, 0, 0, 0, 0, 0, 0, 0, 2, 1], 2));
    assert!(behind(&[255, 9, 9, 9, 0, 0, 0, 0, 0, 0, 2, 0], 1));
    assert!(!behind(&[128, 0, 0, 0, 255, 255, 255, 255, 255, 255, 255, 255], 1));
    // Other characters are not read.
    assert!(behind(&[48, 194, 160, 0], 1));
    // Neither are headers of another format.
    let mut old = describing(tar::EntryType::GNULongName, b"");
    old[257..265].copy_from_slice(&[0u8; 8]);
    old.extend(sparse.as_bytes());
    assert!(!goes_out_of_bounds(&old));
    old[257..265].copy_from_slice(b"ustar\x0000");
    assert!(goes_out_of_bounds(&old));
}

#[test]
fn unreadable_archives_are_reported() {
    let e = || "e".to_string();
    assert_eq!(
        renamed(FirstFile::NoEntries(e()), "x").unwrap_err().told_in_full(),
        "Failed to read tar entries: e"
    );
    assert_eq!(
        renamed(FirstFile::BadEntry(e()), "x").unwrap_err().told_in_full(),
        "Failed to read tar entry: e"
    );
    assert_eq!(renamed(FirstFile::Unread(e()), "x").unwrap_err().told_in_full(), "e");
    assert_eq!(renamed(FirstFile::Missing, "x").unwrap(), vec![0u8; 1024]);
    let packed = renamed(FirstFile::Content(vec![7]), "x").unwrap();
    assert_eq!(only_file(&packed), ("x".to_string(), 0o755, vec![7]));
    assert_eq!(
        download_failed(e()).told_in_full(),
        "Failed to download from source container: e"
    );
    assert_eq!(
        copy_upload_failed(e()).told_in_full(),
        "Failed to upload to destination container: e"
    );
}

#[test]
fn stopped_containers_are_created_from_images() {
    let c = stopped_container("n", SOCAT_IMAGE);
    assert_eq!((c.name.as_str(), c.image.as_str(), c.cmd), ("n", "alpine/socat", vec!["true".to_string()]));
    let failed = || Event::Failed("gone".to_string());
    let step = |a, ev: Event| create_container_stopped("n", a, &ev);
    assert!(matches!(step(StoppedAction::AskImage, Event::Yes), StoppedNext::Go(StoppedAction::Create)));
    assert!(matches!(step(StoppedAction::AskImage, Event::No), StoppedNext::Go(StoppedAction::Pull)));
    assert!(matches!(step(StoppedAction::Pull, Event::Done), StoppedNext::Go(StoppedAction::Create)));
    assert!(matches!(step(StoppedAction::Create, Event::Done), StoppedNext::Done));
    match step(StoppedAction::Pull, failed()) {
        StoppedNext::Fail(t) => assert_eq!(t.told_in_full(), "gone"),
        _ => panic!("a failed pull fails"),
    }
    match step(StoppedAction::Create, failed()) {
        StoppedNext::Fail(t) => assert_eq!(t.told_in_full(), "Failed to create container n: gone"),
        _ => panic!("a failed creation fails"),
    }
}

fn trouble(s: &str) -> Trouble {
    Trouble { message: s.to_string(), cause: None }
}

/// Runs an extraction in which the action with a number fails, and gives the actions and the end.
fn extraction(failing: Option<usize>) -> (Vec<String>, ExtractNext) {
    let mut actions = Vec::new();
    let mut a = ExtractAction::CreateSource;
    loop {
        let outcome = if failing == Some(actions.len()) { Err(trouble("e")) } else { Ok(()) };
        actions.push(match &a {
            ExtractAction::CreateSource => "create".to_string(),
            ExtractAction::MakeDirectories => "directories".to_string(),
            ExtractAction::Copy(i) => file_to_copy(*i).1.to_string(),
            ExtractAction::WriteScript => "script".to_string(),
            ExtractAction::RemoveSource(_) => "remove".to_string(),
        });
        match extract_socat("k3s", a, outcome) {
            ExtractNext::Go(b) => a = b,
            end => return (actions, end),
        }
    }
}

#[test]
fn extractions_copy_all_files_and_clean_up() {
    let (actions, end) = extraction(None);
    assert_eq!(
        actions,
        vec![
            "create",
            "directories",
            "/opt/socat/socat1",
            "/opt/socat/libreadline.so.8",
            "/opt/socat/libssl.so.3",
            "/opt/socat/libcrypto.so.3",
            "/opt/socat/libncursesw.so.6",
            "script",
            "remove",
        ]
    );
    assert_eq!(actions.len(), SOCAT_FILES + 4);
    assert!(matches!(end, ExtractNext::Done));
    assert_eq!(file_to_copy(4).0, "/usr/lib/libncursesw.so.6.5");
    assert_eq!(source_name(42), "socat-extract-42");
    assert_eq!(directories_command(), vec!["mkdir", "-p", "/opt/socat", "/usr/local/bin"]);
}

#[test]
fn failed_extractions_remove_their_source() {
    let ends = |n: usize| match extraction(Some(n)) {
        (actions, ExtractNext::Fail(t)) => (actions, t.told_in_full()),
        _ => panic!("the extraction fails"),
    };
    let (actions, e) = ends(0);
    assert_eq!(actions, vec!["create"]);
    assert_eq!(e, "Failed to create temp container from alpine/socat: e");
    let (actions, e) = ends(3);
    assert_eq!(actions.len(), 5);
    assert_eq!(actions.last().unwrap(), "remove");
    assert_eq!(e, "Failed to install socat in k3s: e");
    let (actions, e) = ends(7);
    assert_eq!(actions.last().unwrap(), "remove");
    assert_eq!(e, "Failed to install socat in k3s: Failed to create socat wrapper script: e");
    assert!(matches!(extraction(Some(1)).1, ExtractNext::Done));
    assert!(matches!(extraction(Some(8)).1, ExtractNext::Done));
}
