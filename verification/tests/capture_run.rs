use k3dev::capture::sidecar::build_tcpdump_cmd;
use k3dev::capture::spec::{sanitize, CaptureSpec, CaptureTarget};
use k3dev::capture::stream::{
    duration_left, packet_count, resolve_container, run_capture, sidecar_name, CaptureAction,
    CaptureContext, CaptureMessage, CaptureNext, CaptureStream, StreamEvent, StreamNext,
};
use k3dev::machine::Event;

fn spec() -> CaptureSpec {
    CaptureSpec {
        target: CaptureTarget::Container("web".to_string()),
        output_path: "/tmp/x.pcap".to_string(),
        image: "nicolaka/netshoot".to_string(),
        iface: "any".to_string(),
        filter: None,
        duration_ms: None,
        max_bytes: Some(100),
    }
}

fn context() -> CaptureContext {
    CaptureContext {
        target_id: "abc".to_string(),
        sidecar: "k3dev-capture-1".to_string(),
        stream_error: "broken".to_string(),
    }
}

#[test]
fn labels_are_made_of_plain_characters() {
    assert_eq!(sanitize("a b/c.d_é"), "a-b-c-d_-");
    assert_eq!(sanitize(&sanitize("a b/c")), sanitize("a b/c"));
    assert_eq!(CaptureTarget::Container("x".to_string()).description(), "container x");
}

#[test]
fn a_filter_is_one_argument() {
    let cmd = build_tcpdump_cmd("any", Some("  port 80; rm -rf /  "));
    assert_eq!(cmd.len(), 9);
    assert_eq!(cmd[8], "port 80; rm -rf /");
}

#[test]
fn the_sidecar_is_stopped_whatever_the_stream_did() {
    for ev in [Event::Done, Event::Failed("broken".to_string())] {
        let step = run_capture(CaptureAction::Stream, &ev, &spec(), &context());
        assert!(matches!(step.next, CaptureNext::Go(CaptureAction::KillSidecar(_))));
    }
    let bad = run_capture(CaptureAction::KillSidecar(false), &Event::Done, &spec(), &context());
    assert!(matches!(bad.next, CaptureNext::Fail(_)));
}

#[test]
fn containers_are_resolved_by_name() {
    assert!(resolve_container("web", true).is_ok());
    assert!(resolve_container("web", false).is_err());
    assert!(sidecar_name(17).starts_with("k3dev-capture-"));
}

#[test]
fn a_limit_ends_the_stream() {
    let mut s = CaptureStream::new();
    let (_, next) = s.stream_to_file(
        StreamEvent::Written { len: 60, since_report_ms: 0 },
        Some(100),
        "/tmp/x.pcap",
    );
    assert!(matches!(next, StreamNext::Continue));
    let (_, next) = s.stream_to_file(
        StreamEvent::Written { len: 60, since_report_ms: 0 },
        Some(100),
        "/tmp/x.pcap",
    );
    assert!(matches!(next, StreamNext::Stop));
    assert_eq!(s.bytes, 120);
    match s.complete("/tmp/x.pcap") {
        CaptureMessage::Complete { path, bytes, packets } => {
            assert_eq!((path.as_str(), bytes, packets), ("/tmp/x.pcap", 120, None));
        }
        m => panic!("{:?}", m),
    }
}

#[test]
fn streams_end_and_fail() {
    for ev in [StreamEvent::Cancelled, StreamEvent::DurationElapsed, StreamEvent::Closed] {
        let (_, next) = CaptureStream::new().stream_to_file(ev, None, "p");
        assert!(matches!(next, StreamNext::Stop));
    }
    for ev in [StreamEvent::Broken("e".to_string()), StreamEvent::WriteFailed("e".to_string())] {
        let (_, next) = CaptureStream::new().stream_to_file(ev, None, "p");
        assert!(matches!(next, StreamNext::Fail(_)));
    }
}

#[test]
fn remarks_may_come_in_pieces() {
    let whole = |parts: &[&str]| {
        let mut s = CaptureStream::new();
        for p in parts {
            s.stream_to_file(StreamEvent::Remark(p.to_string()), None, "p");
        }
        s.packets
    };
    assert_eq!(whole(&["listening\n142 packets captured\n"]), Some(142));
    assert_eq!(whole(&["listening\n14", "2 packets cap", "tured\n"]), Some(142));
    assert_eq!(packet_count(&Some("7".to_string())), Some(7));
    assert_eq!(packet_count(&None), None);
    assert_eq!(packet_count(&Some("99999999999999999999".to_string())), None);
}

#[test]
fn the_time_left_shrinks() {
    assert_eq!(duration_left(None, 5), None);
    assert_eq!(duration_left(Some(10), 4), Some(6));
    assert_eq!(duration_left(Some(10), 11), Some(0));
}

#[test]
fn the_first_complete_count_is_read() {
    assert_eq!(k3dev::capture::stream::parse_packet_count("12 34 packets captured"), Some(34));
    assert_eq!(k3dev::capture::stream::parse_packet_count("got 56 \t packets\n captured, 7 packets captured"), Some(56));
    assert_eq!(k3dev::capture::stream::parse_packet_count("8packets captured"), None);
    assert_eq!(k3dev::capture::stream::parse_packet_count("8 packetscaptured"), None);
    assert_eq!(k3dev::capture::stream::parse_packet_count("99999999999999999999 packets captured"), None);
}
