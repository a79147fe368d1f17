//! The course of a capture: from the target to the file.

use vstd::prelude::*;
use crate::capture::spec::CaptureSpec;
use crate::machine::{good, reason, Event};
use crate::number::{
    decimal, i64_text, law_decimal_reads_back, lemma_decimal, number_upto, parse_u64,
    signed_decimal,
};
use crate::pattern::{blanks_from, count_in, first_group, lemma_digits_from, PACKET_PATTERN};
use crate::text::{all_ascii, ends, lemma_pieces_nonempty, opt_view, pieces, split, trim_end, trimmed_end, views};

verus! {

/// What is said of a capture.
#[derive(Debug)]
pub enum CaptureMessage {
    Status(String),
    Progress { bytes: u64, packets: Option<u64> },
    Complete { path: String, bytes: u64, packets: Option<u64> },
    Failed(String),
}

/// What is said of a capture, as a value.
pub enum CaptureSaid {
    Status(Seq<char>),
    Progress(u64, Option<u64>),
    Complete(Seq<char>, u64, Option<u64>),
    Failed(Seq<char>),
}

impl View for CaptureMessage {
    type V = CaptureSaid;

    open spec fn view(&self) -> CaptureSaid {
        match *self {
            CaptureMessage::Status(s) => CaptureSaid::Status(s@),
            CaptureMessage::Progress { bytes, packets } => CaptureSaid::Progress(bytes, packets),
            CaptureMessage::Complete { path, bytes, packets } => CaptureSaid::Complete(
                path@,
                bytes,
                packets,
            ),
            CaptureMessage::Failed(s) => CaptureSaid::Failed(s@),
        }
    }
}

/// What is said, as values.
pub open spec fn said(v: Seq<CaptureMessage>) -> Seq<CaptureSaid> {
    Seq::new(v.len(), |i: int| v[i]@)
}

/// Nothing said.
pub open spec fn nothing() -> Seq<CaptureSaid> {
    Seq::empty()
}

fn quiet() -> (r: Vec<CaptureMessage>)
    ensures
        said(r@) == nothing(),
{
    let r: Vec<CaptureMessage> = Vec::new();
    assert(said(r@) =~= nothing());
    r
}

fn tell(v: &mut Vec<CaptureMessage>, m: CaptureMessage)
    ensures
        said(final(v)@) == said(old(v)@).push(m@),
{
    let ghost before = said(v@);
    v.push(m);
    assert(said(v@) =~= before.push(m@));
}

// ---------------------------------------------------------------------------
// The capture as a whole
// ---------------------------------------------------------------------------

/// An action of a capture.
#[derive(Debug, Clone, Copy, PartialEq, Eq, Structural)]
pub enum CaptureAction {
    /// Find the container to capture the traffic of.
    Resolve,
    /// Ask whether it shares the network of this machine.
    AskHostNetwork,
    /// Ask whether the image is there.
    AskImage,
    /// Pull it.
    PullImage,
    /// Run the capturing container.
    RunSidecar,
    /// Write what it captures to the file.
    Stream,
    /// Stop the capturing container; it says whether the stream ended well.
    KillSidecar(bool),
}

/// What follows an action of a capture.
#[derive(Debug)]
pub enum CaptureNext {
    Go(CaptureAction),
    Done,
    Fail(String),
}

/// What follows an action of a capture, as a value.
pub enum CaptureNextView {
    Go(CaptureAction),
    Done,
    Fail(Seq<char>),
}

impl View for CaptureNext {
    type V = CaptureNextView;

    open spec fn view(&self) -> CaptureNextView {
        match *self {
            CaptureNext::Go(a) => CaptureNextView::Go(a),
            CaptureNext::Done => CaptureNextView::Done,
            CaptureNext::Fail(e) => CaptureNextView::Fail(e@),
        }
    }
}

/// What is known in the course of a capture: the target's container, the capturing container, and
/// why the stream failed.
#[derive(Debug)]
pub struct CaptureContext {
    pub target_id: String,
    pub sidecar: String,
    pub stream_error: String,
}

/// What is said and what follows after an action.
pub open spec fn capture_next(a: CaptureAction, ev: Event, spec_: CaptureSpec, c: CaptureContext)
    -> (Seq<CaptureSaid>, CaptureNextView) {
    match a {
        CaptureAction::Resolve => if good(ev) {
            (
                nothing().push(CaptureSaid::Status("Target: "@ + c.target_id@)),
                CaptureNextView::Go(CaptureAction::AskHostNetwork),
            )
        } else {
            (nothing(), CaptureNextView::Fail(reason(ev)))
        },
        CaptureAction::AskHostNetwork => (
            if good(ev) {
                nothing().push(
                    CaptureSaid::Status(
                        "Warning: target uses hostNetwork — capture sees all host traffic"@,
                    ),
                )
            } else {
                nothing()
            },
            CaptureNextView::Go(CaptureAction::AskImage),
        ),
        CaptureAction::AskImage => if good(ev) {
            (nothing(), CaptureNextView::Go(CaptureAction::RunSidecar))
        } else {
            (
                nothing().push(
                    CaptureSaid::Status("Pulling capture image "@ + spec_.image@),
                ),
                CaptureNextView::Go(CaptureAction::PullImage),
            )
        },
        CaptureAction::PullImage => if good(ev) {
            (nothing(), CaptureNextView::Go(CaptureAction::RunSidecar))
        } else {
            (
                nothing(),
                CaptureNextView::Fail(
                    "Failed to pull capture image "@ + spec_.image@ + ": "@ + reason(ev),
                ),
            )
        },
        CaptureAction::RunSidecar => if good(ev) {
            (
                nothing().push(CaptureSaid::Status("Capture started → "@ + spec_.output_path@)),
                CaptureNextView::Go(CaptureAction::Stream),
            )
        } else {
            (
                nothing(),
                CaptureNextView::Fail(
                    "Failed to start capture sidecar "@ + c.sidecar@ + ": "@ + reason(ev),
                ),
            )
        },
        CaptureAction::Stream => (
            nothing(),
            CaptureNextView::Go(CaptureAction::KillSidecar(good(ev))),
        ),
        CaptureAction::KillSidecar(ok) => if ok {
            (nothing(), CaptureNextView::Done)
        } else {
            (nothing(), CaptureNextView::Fail(c.stream_error@))
        },
    }
}

/// How many more actions a capture takes at most, this one counted.
pub open spec fn capture_distance(a: CaptureAction) -> nat {
    match a {
        CaptureAction::Resolve => 7,
        CaptureAction::AskHostNetwork => 6,
        CaptureAction::AskImage => 5,
        CaptureAction::PullImage => 4,
        CaptureAction::RunSidecar => 3,
        CaptureAction::Stream => 2,
        CaptureAction::KillSidecar(_) => 1,
    }
}

/// Once the capturing container runs, it is stopped before the capture ends, whatever came of the
/// stream. A capture ends.
pub proof fn law_sidecar_is_always_stopped(
    a: CaptureAction,
    ev: Event,
    spec_: CaptureSpec,
    c: CaptureContext,
)
    ensures
        a is Stream ==> capture_next(a, ev, spec_, c).1 == CaptureNextView::Go(
            CaptureAction::KillSidecar(good(ev)),
        ),
        capture_next(a, ev, spec_, c).1 is Done ==> a == CaptureAction::KillSidecar(true),
        capture_next(a, ev, spec_, c).1 matches CaptureNextView::Go(b) ==> capture_distance(b)
            < capture_distance(a),
{
}

/// A step of a capture: what is said, and what follows.
#[derive(Debug)]
pub struct CaptureStep {
    pub said: Vec<CaptureMessage>,
    pub next: CaptureNext,
}

fn plain(next: CaptureNext) -> (r: CaptureStep)
    ensures
        said(r.said@) == nothing(),
        r.next == next,
{
    CaptureStep { said: quiet(), next }
}

fn failed3(a: &str, b: &str, ev: &Event) -> (r: CaptureStep)
    ensures
        said(r.said@) == nothing(),
        r.next@ == CaptureNextView::Fail(a@ + b@ + ": "@ + reason(*ev)),
{
    let mut s = a.to_owned();
    s.append(b);
    s.append(": ");
    s.append(ev.why().as_str());
    plain(CaptureNext::Fail(s))
}

fn status2(a: &str, b: &str, next: CaptureAction) -> (r: CaptureStep)
    ensures
        said(r.said@) == nothing().push(CaptureSaid::Status(a@ + b@)),
        r.next@ == CaptureNextView::Go(next),
{
    let mut s = a.to_owned();
    s.append(b);
    let mut v = quiet();
    tell(&mut v, CaptureMessage::Status(s));
    CaptureStep { said: v, next: CaptureNext::Go(next) }
}

/// What is said and what follows after an action.
pub fn run_capture(a: CaptureAction, ev: &Event, spec_: &CaptureSpec, c: &CaptureContext) -> (r:
    CaptureStep)
    ensures
        (said(r.said@), r.next@) == capture_next(a, *ev, *spec_, *c),
{
    let ok = ev.is_good();
    match a {
        CaptureAction::Resolve => if ok {
            status2("Target: ", c.target_id.as_str(), CaptureAction::AskHostNetwork)
        } else {
            plain(CaptureNext::Fail(ev.why()))
        },
        CaptureAction::AskHostNetwork => {
            let mut v = quiet();
            if ok {
                tell(
                    &mut v,
                    CaptureMessage::Status(
                        "Warning: target uses hostNetwork — capture sees all host traffic".to_owned(),
                    ),
                );
            }
            CaptureStep { said: v, next: CaptureNext::Go(CaptureAction::AskImage) }
        },
        CaptureAction::AskImage => if ok {
            plain(CaptureNext::Go(CaptureAction::RunSidecar))
        } else {
            status2("Pulling capture image ", spec_.image.as_str(), CaptureAction::PullImage)
        },
        CaptureAction::PullImage => if ok {
            plain(CaptureNext::Go(CaptureAction::RunSidecar))
        } else {
            failed3("Failed to pull capture image ", spec_.image.as_str(), ev)
        },
        CaptureAction::RunSidecar => if ok {
            status2("Capture started → ", spec_.output_path.as_str(), CaptureAction::Stream)
        } else {
            failed3("Failed to start capture sidecar ", c.sidecar.as_str(), ev)
        },
        CaptureAction::Stream => plain(CaptureNext::Go(CaptureAction::KillSidecar(ok))),
        CaptureAction::KillSidecar(good_end) => if good_end {
            plain(CaptureNext::Done)
        } else {
            plain(CaptureNext::Fail(c.stream_error.clone()))
        },
    }
}

/// The container to capture the traffic of, where a container was named.
pub fn resolve_container(name: &str, there: bool) -> (r: Result<String, String>)
    ensures
        match r {
            Ok(n) => there && n@ == name@,
            Err(e) => !there && e@ == "Container '"@ + name@ + "' not found"@,
        },
{
    if there {
        Ok(name.to_owned())
    } else {
        let mut s = "Container '".to_owned();
        s.append(name);
        s.append("' not found");
        Err(s)
    }
}

/// The name of a capturing container that is started at this time, in nanoseconds.
pub fn sidecar_name(nanos: i64) -> (r: String)
    ensures
        r@ == "k3dev-capture-"@ + signed_decimal(nanos as int),
{
    let mut s = "k3dev-capture-".to_owned();
    s.append(i64_text(nanos).as_str());
    s
}

// ---------------------------------------------------------------------------
// The stream
// ---------------------------------------------------------------------------

/// The number in what was found; nothing where it is none of 64 bits.
pub open spec fn packets_in(found: Option<Seq<char>>) -> Option<u64> {
    match found {
        Some(s) => match number_upto(s, u64::MAX as nat) {
            Some(n) => Some(n as u64),
            None => None,
        },
        None => None,
    }
}

/// The number of packets that a line of tcpdump reports.
pub open spec fn line_packets(line: Seq<char>) -> Option<u64> {
    packets_in(count_in(line))
}

/// The number of packets that tcpdump reports at the end is read as it is.
pub proof fn law_packets_read_back(n: u64)
    ensures
        line_packets(decimal(n as nat) + " packets captured"@) == Some(n),
{
    let d = decimal(n as nat);
    let s = d + " packets captured"@;
    let k = d.len() as int;
    law_decimal_reads_back(n as nat, u64::MAX as nat);
    lemma_decimal(n as nat);
    reveal_strlit(" packets captured");
    reveal_strlit("packets");
    reveal_strlit("captured");
    assert(all_ascii(s));
    lemma_digits_from(s, 0, k);
    reveal_with_fuel(blanks_from, 2);
    assert(blanks_from(s, k) == k + 1);
    assert(s.subrange(k + 1, k + 8) =~= "packets"@);
    assert(blanks_from(s, k + 8) == k + 9);
    assert(s.subrange(k + 9, k + 17) =~= "captured"@);
    assert(s.subrange(0, k) =~= d);
}

/// The number in what was found.
pub fn packet_count(found: &Option<String>) -> (r: Option<u64>)
    ensures
        r == packets_in(opt_view(*found)),
{
    match found {
        Some(s) => parse_u64(s.as_str()),
        None => None,
    }
}

/// The number of packets that a line such as `12345 packets captured` reports.
pub fn parse_packet_count(line: &str) -> (r: Option<u64>)
    ensures
        r == line_packets(line@),
{
    packet_count(&first_group(PACKET_PATTERN, line))
}

/// The progress of a capture: bytes written, packets reported, and a line of tcpdump that has not
/// ended.
#[derive(Debug)]
pub struct CaptureStream {
    pub bytes: u64,
    pub packets: Option<u64>,
    pub partial: String,
}

/// The progress of a capture, as a value.
pub struct StreamState {
    pub bytes: u64,
    pub packets: Option<u64>,
    pub partial: Seq<char>,
}

impl View for CaptureStream {
    type V = StreamState;

    open spec fn view(&self) -> StreamState {
        StreamState { bytes: self.bytes, packets: self.packets, partial: self.partial@ }
    }
}

/// Something that happens to a stream.
#[derive(Debug)]
pub enum StreamEvent {
    /// The user has ended the capture.
    Cancelled,
    /// Its time is up.
    DurationElapsed,
    /// The capturing container has ended.
    Closed,
    /// The stream is broken.
    Broken(String),
    /// So many bytes have been written, so many milliseconds after the last report.
    Written { len: u64, since_report_ms: u128 },
    /// Bytes could not be written.
    WriteFailed(String),
    /// tcpdump has said something.
    Remark(String),
    /// Something else has arrived.
    Other,
}

/// What to do after an event.
#[derive(Debug)]
pub enum StreamNext {
    Continue,
    /// The stream is over.
    Stop,
    Fail(String),
}

/// What to do after an event, as a value.
pub enum StreamNextView {
    Continue,
    Stop,
    Fail(Seq<char>),
}

impl View for StreamNext {
    type V = StreamNextView;

    open spec fn view(&self) -> StreamNextView {
        match *self {
            StreamNext::Continue => StreamNextView::Continue,
            StreamNext::Stop => StreamNextView::Stop,
            StreamNext::Fail(e) => StreamNextView::Fail(e@),
        }
    }
}

/// The sum, at most what 64 bits hold.
pub open spec fn sum64(a: u64, b: u64) -> u64 {
    if a + b <= u64::MAX {
        (a + b) as u64
    } else {
        u64::MAX
    }
}

/// The lines of a list without the white space at their ends; empty ones are left out.
pub open spec fn remarks(lines: Seq<Seq<char>>) -> Seq<Seq<char>>
    decreases lines.len(),
{
    if lines.len() == 0 {
        Seq::empty()
    } else {
        let before = remarks(lines.drop_last());
        let l = trimmed_end(lines.last());
        if l.len() == 0 {
            before
        } else {
            before.push(l)
        }
    }
}

/// The number of packets after remarks: the last that one reports.
pub open spec fn packets_after(lines: Seq<Seq<char>>, known: Option<u64>) -> Option<u64>
    decreases lines.len(),
{
    if lines.len() == 0 {
        known
    } else {
        match line_packets(lines.last()) {
            Some(n) => Some(n),
            None => packets_after(lines.drop_last(), known),
        }
    }
}

/// The remarks that are complete once a text has arrived.
pub open spec fn completed(partial: Seq<char>, text: Seq<char>) -> Seq<Seq<char>> {
    remarks(pieces(partial + text, '\n').drop_last())
}

/// The remark that has not ended once a text has arrived.
pub open spec fn unfinished(partial: Seq<char>, text: Seq<char>) -> Seq<char> {
    pieces(partial + text, '\n').last()
}

/// The texts as reports of the status.
pub open spec fn as_status(lines: Seq<Seq<char>>) -> Seq<CaptureSaid> {
    Seq::new(lines.len(), |i: int| CaptureSaid::Status(lines[i]))
}

/// The state after an event.
pub open spec fn stream_after(s: StreamState, ev: StreamEvent) -> StreamState {
    match ev {
        StreamEvent::Written { len, .. } => StreamState { bytes: sum64(s.bytes, len), ..s },
        StreamEvent::Remark(t) => StreamState {
            bytes: s.bytes,
            packets: packets_after(completed(s.partial, t@), s.packets),
            partial: unfinished(s.partial, t@),
        },
        _ => s,
    }
}

/// Whether the limit on bytes is reached.
pub open spec fn limit_reached(limit: Option<u64>, bytes: u64) -> bool {
    limit matches Some(n) && bytes >= n
}

/// What is said after an event.
pub open spec fn stream_said(s: StreamState, ev: StreamEvent, limit: Option<u64>) -> Seq<
    CaptureSaid,
> {
    match ev {
        StreamEvent::Cancelled => nothing().push(CaptureSaid::Status("Stopping capture…"@)),
        StreamEvent::DurationElapsed => nothing().push(
            CaptureSaid::Status("Duration limit reached"@),
        ),
        StreamEvent::Written { len, since_report_ms } => {
            let bytes = sum64(s.bytes, len);
            if limit_reached(limit, bytes) {
                nothing().push(CaptureSaid::Status("Byte limit reached"@))
            } else if since_report_ms >= 500 {
                nothing().push(CaptureSaid::Progress(bytes, s.packets))
            } else {
                nothing()
            }
        },
        StreamEvent::Remark(t) => as_status(completed(s.partial, t@)),
        _ => nothing(),
    }
}

/// What to do after an event; `path` is the file that is written.
pub open spec fn stream_next(s: StreamState, ev: StreamEvent, limit: Option<u64>, path: Seq<char>)
    -> StreamNextView {
    match ev {
        StreamEvent::Cancelled => StreamNextView::Stop,
        StreamEvent::DurationElapsed => StreamNextView::Stop,
        StreamEvent::Closed => StreamNextView::Stop,
        StreamEvent::Broken(e) => StreamNextView::Fail("Attach stream error: "@ + e@),
        StreamEvent::WriteFailed(e) => StreamNextView::Fail(
            "Write to "@ + path + " failed: "@ + e@,
        ),
        StreamEvent::Written { len, .. } => if limit_reached(limit, sum64(s.bytes, len)) {
            StreamNextView::Stop
        } else {
            StreamNextView::Continue
        },
        _ => StreamNextView::Continue,
    }
}

impl CaptureStream {
    /// A stream that begins.
    pub fn new() -> (r: CaptureStream)
        ensures
            r@.bytes == 0,
            r@.packets is None,
            r@.partial == Seq::<char>::empty(),
    {
        let partial = String::new();
        assert(partial@ =~= Seq::<char>::empty());
        CaptureStream { bytes: 0, packets: None, partial }
    }

    fn remark(&mut self, text: &str) -> (r: Vec<CaptureMessage>)
        ensures
            final(self)@ == (StreamState {
                bytes: old(self)@.bytes,
                packets: packets_after(completed(old(self)@.partial, text@), old(self)@.packets),
                partial: unfinished(old(self)@.partial, text@),
            }),
            said(r@) == as_status(completed(old(self)@.partial, text@)),
    {
        let ghost known = self.packets;
        let mut whole = self.partial.clone();
        whole.append(text);
        let parts = split(whole.as_str(), '\n');
        let ghost all = pieces(whole@, '\n');
        proof {
            lemma_pieces_nonempty(whole@, '\n');
        }
        assert(views(parts@).len() == parts@.len());
        let ghost lines = all.drop_last();
        let mut out = quiet();
        let mut packets = self.packets;
        let n: usize = parts.len();
        let mut i: usize = 0;
        assert(lines.take(0) =~= Seq::<Seq<char>>::empty());
        assert(as_status(remarks(lines.take(0))) =~= nothing());
        while i < n - 1
            invariant
                n == parts@.len(),
                n >= 1,
                i <= n - 1,
                all == views(parts@),
                lines == all.drop_last(),
                said(out@) == as_status(remarks(lines.take(i as int))),
                packets == packets_after(remarks(lines.take(i as int)), known),
            decreases n - i,
        {
            assert(lines.take(i + 1).drop_last() =~= lines.take(i as int));
            assert(lines.take(i + 1).last() == parts@[i as int]@);
            let ghost before = remarks(lines.take(i as int));
            let line = trim_end(parts[i].as_str());
            if !line.as_str().is_empty() {
                if let Some(k) = parse_packet_count(line.as_str()) {
                    packets = Some(k);
                }
                let ghost l = line@;
                assert(before.push(l).drop_last() =~= before);
                tell(&mut out, CaptureMessage::Status(line));
                assert(as_status(before.push(l)) =~= as_status(before).push(
                    CaptureSaid::Status(l),
                ));
            }
            i = i + 1;
        }
        assert(lines.take(i as int) =~= lines);
        assert(all.last() == parts@[n - 1]@);
        self.packets = packets;
        self.partial = parts[n - 1].clone();
        out
    }

    /// Takes an event: what is said, and what to do. `limit` is the limit on bytes, `path` the file
    /// that is written.
    pub fn stream_to_file(&mut self, ev: StreamEvent, limit: Option<u64>, path: &str) -> (r: (
        Vec<CaptureMessage>,
        StreamNext,
    ))
        ensures
            final(self)@ == stream_after(old(self)@, ev),
            said(r.0@) == stream_said(old(self)@, ev, limit),
            r.1@ == stream_next(old(self)@, ev, limit, path@),
    {
        let mut out = quiet();
        match ev {
            StreamEvent::Cancelled => {
                tell(&mut out, CaptureMessage::Status("Stopping capture…".to_owned()));
                (out, StreamNext::Stop)
            },
            StreamEvent::DurationElapsed => {
                tell(&mut out, CaptureMessage::Status("Duration limit reached".to_owned()));
                (out, StreamNext::Stop)
            },
            StreamEvent::Closed => (out, StreamNext::Stop),
            StreamEvent::Broken(e) => {
                let mut s = "Attach stream error: ".to_owned();
                s.append(e.as_str());
                (out, StreamNext::Fail(s))
            },
            StreamEvent::WriteFailed(e) => {
                let mut s = "Write to ".to_owned();
                s.append(path);
                s.append(" failed: ");
                s.append(e.as_str());
                (out, StreamNext::Fail(s))
            },
            StreamEvent::Written { len, since_report_ms } => {
                self.bytes = self.bytes.saturating_add(len);
                let reached = match limit {
                    Some(n) => self.bytes >= n,
                    None => false,
                };
                if reached {
                    tell(&mut out, CaptureMessage::Status("Byte limit reached".to_owned()));
                    return (out, StreamNext::Stop);
                }
                if since_report_ms >= 500 {
                    tell(
                        &mut out,
                        CaptureMessage::Progress { bytes: self.bytes, packets: self.packets },
                    );
                }
                (out, StreamNext::Continue)
            },
            StreamEvent::Remark(t) => {
                let lines = self.remark(t.as_str());
                (lines, StreamNext::Continue)
            },
            StreamEvent::Other => (out, StreamNext::Continue),
        }
    }

    /// What is said once the file is complete.
    pub fn complete(&self, path: &str) -> (r: CaptureMessage)
        ensures
            r@ == CaptureSaid::Complete(path@, self@.bytes, self@.packets),
    {
        CaptureMessage::Complete {
            path: path.to_owned(),
            bytes: self.bytes,
            packets: self.packets,
        }
    }
}

/// How many milliseconds a capture has left: nothing where its time is not limited.
pub open spec fn time_left(duration_ms: Option<u64>, elapsed_ms: u64) -> Option<u64> {
    match duration_ms {
        Some(d) => Some(
            if elapsed_ms <= d {
                (d - elapsed_ms) as u64
            } else {
                0u64
            },
        ),
        None => None,
    }
}

/// How many milliseconds a capture has left: nothing where its time is not limited.
pub fn duration_left(duration_ms: Option<u64>, elapsed_ms: u64) -> (r: Option<u64>)
    ensures
        r == time_left(duration_ms, elapsed_ms),
{
    match duration_ms {
        Some(d) => Some(
            if elapsed_ms <= d {
                d - elapsed_ms
            } else {
                0
            },
        ),
        None => None,
    }
}

// ---------------------------------------------------------------------------
// Laws
// ---------------------------------------------------------------------------

/// A stream goes on only below the limit, and what was written is never forgotten.
pub proof fn law_limit_ends_the_stream(
    s: StreamState,
    ev: StreamEvent,
    limit: Option<u64>,
    path: Seq<char>,
)
    requires
        !limit_reached(limit, s.bytes),
        stream_next(s, ev, limit, path) is Continue,
    ensures
        !limit_reached(limit, stream_after(s, ev).bytes),
        stream_after(s, ev).bytes >= s.bytes,
{
}

proof fn lemma_pieces_resume(x: Seq<char>, t: Seq<char>, c: char)
    ensures
        pieces(x + t, c) == pieces(x, c).drop_last() + pieces(pieces(x, c).last() + t, c),
    decreases t.len(),
{
    lemma_pieces_nonempty(x, c);
    let p = pieces(x, c);
    if t.len() == 0 {
        assert(x + t =~= x);
        assert(p.last() + t =~= p.last());
        crate::text::lemma_pieces_clean(x, c);
        assert(!p[p.len() - 1].contains(c));
        crate::text::lemma_pieces_single(p.last(), c);
        assert(p =~= p.drop_last() + seq![p.last()]);
    } else {
        let d = t.drop_last();
        lemma_pieces_resume(x, d, c);
        assert((x + t).drop_last() =~= x + d);
        assert((p.last() + t).drop_last() =~= p.last() + d);
        let q = pieces(p.last() + d, c);
        lemma_pieces_nonempty(p.last() + d, c);
        let whole = p.drop_last() + q;
        assert(whole.last() == q.last());
        if t.last() == c {
            assert(pieces(x + t, c) =~= p.drop_last() + q.push(Seq::empty()));
        } else {
            assert(whole.drop_last() =~= p.drop_last() + q.drop_last());
            assert(pieces(x + t, c) =~= p.drop_last() + q.drop_last().push(
                q.last().push(t.last()),
            ));
        }
    }
}

proof fn lemma_remarks_concat(a: Seq<Seq<char>>, b: Seq<Seq<char>>)
    ensures
        remarks(a + b) == remarks(a) + remarks(b),
    decreases b.len(),
{
    if b.len() == 0 {
        assert(a + b =~= a);
        assert(remarks(a) + remarks(b) =~= remarks(a));
    } else {
        lemma_remarks_concat(a, b.drop_last());
        assert((a + b).drop_last() =~= a + b.drop_last());
        assert(remarks(a + b) =~= remarks(a) + remarks(b));
    }
}

proof fn lemma_packets_concat(a: Seq<Seq<char>>, b: Seq<Seq<char>>, known: Option<u64>)
    ensures
        packets_after(a + b, known) == packets_after(b, packets_after(a, known)),
    decreases b.len(),
{
    if b.len() == 0 {
        assert(a + b =~= a);
    } else {
        lemma_packets_concat(a, b.drop_last(), known);
        assert((a + b).drop_last() =~= a + b.drop_last());
    }
}

/// It does not matter in what pieces the remarks of tcpdump arrive: what is said, what is known
/// of packets and what is unfinished are the same.
pub proof fn law_pieces_of_remarks_do_not_matter(
    partial: Seq<char>,
    a: Seq<char>,
    b: Seq<char>,
    known: Option<u64>,
)
    ensures
        completed(partial, a) + completed(unfinished(partial, a), b) == completed(partial, a + b),
        unfinished(unfinished(partial, a), b) == unfinished(partial, a + b),
        packets_after(
            completed(unfinished(partial, a), b),
            packets_after(completed(partial, a), known),
        ) == packets_after(completed(partial, a + b), known),
{
    let x = partial + a;
    assert(x + b =~= partial + (a + b));
    lemma_pieces_resume(x, b, '\n');
    let p = pieces(x, '\n').drop_last();
    let q = pieces(unfinished(partial, a) + b, '\n');
    lemma_pieces_nonempty(unfinished(partial, a) + b, '\n');
    assert((p + q).drop_last() =~= p + q.drop_last());
    assert((p + q).last() == q.last());
    lemma_remarks_concat(p, q.drop_last());
    lemma_packets_concat(completed(partial, a), completed(unfinished(partial, a), b), known);
}

/// Each action of a capture follows from what came before it: the target is found before its network
/// is asked about, an image that is not there is pulled, and the container runs before its stream is
/// read.
pub proof fn law_captures_go_on(
    a: CaptureAction,
    ev: Event,
    spec_: CaptureSpec,
    c: CaptureContext,
    b: CaptureAction,
)
    ensures
        capture_next(a, ev, spec_, c).1 == CaptureNextView::Go(b) <==> match b {
            CaptureAction::Resolve => false,
            CaptureAction::AskHostNetwork => a == CaptureAction::Resolve && good(ev),
            CaptureAction::AskImage => a == CaptureAction::AskHostNetwork,
            CaptureAction::PullImage => a == CaptureAction::AskImage && !good(ev),
            CaptureAction::RunSidecar => (a == CaptureAction::AskImage || a
                == CaptureAction::PullImage) && good(ev),
            CaptureAction::Stream => a == CaptureAction::RunSidecar && good(ev),
            CaptureAction::KillSidecar(ok) => a == CaptureAction::Stream && ok == good(ev),
        },
        capture_next(a, ev, spec_, c).1 is Fail <==> match a {
            CaptureAction::Resolve | CaptureAction::PullImage | CaptureAction::RunSidecar => !good(ev),
            CaptureAction::KillSidecar(ok) => !ok,
            _ => false,
        },
{
}

/// A capture that fails says why, and one of a target in the network of this machine is warned about.
pub proof fn law_failed_captures_say_why(a: CaptureAction, ev: Event, spec_: CaptureSpec, c: CaptureContext)
    ensures
        capture_next(a, ev, spec_, c).1 matches CaptureNextView::Fail(e) ==> if a is KillSidecar {
            e == c.stream_error@
        } else {
            ends(e, reason(ev))
        },
        a == CaptureAction::AskHostNetwork ==> (capture_next(a, ev, spec_, c).0.len() > 0 <==> good(
            ev,
        )),
{
    if let CaptureNextView::Fail(e) = capture_next(a, ev, spec_, c).1 {
        let n = reason(ev).len();
        if !(a is KillSidecar) {
            assert(e.subrange(e.len() - n, e.len() as int) =~= reason(ev));
        }
    }
}

/// A stream ends where it is ended, where its time is up, where the container has ended, and where the
/// limit on bytes is reached; it fails where it is broken or the file cannot be written.
pub proof fn law_streams_end_for_a_reason(
    s: StreamState,
    ev: StreamEvent,
    limit: Option<u64>,
    path: Seq<char>,
)
    ensures
        stream_next(s, ev, limit, path) is Stop <==> ev is Cancelled || ev is DurationElapsed || ev
            is Closed || (ev is Written && limit is Some && s.bytes + ev->len >= limit->0),
        stream_next(s, ev, limit, path) is Fail <==> ev is Broken || ev is WriteFailed,
        stream_next(s, ev, limit, path) matches StreamNextView::Fail(e) ==> match ev {
            StreamEvent::Broken(x) => ends(e, x@),
            StreamEvent::WriteFailed(x) => ends(e, x@),
            _ => false,
        },
{
    match ev {
        StreamEvent::Broken(x) => {
            let e = "Attach stream error: "@ + x@;
            assert(e.subrange(e.len() - x@.len(), e.len() as int) =~= x@);
        },
        StreamEvent::WriteFailed(x) => {
            let e = "Write to "@ + path + " failed: "@ + x@;
            assert(e.subrange(e.len() - x@.len(), e.len() as int) =~= x@);
        },
        _ => {},
    }
}

/// Bytes add up, as long as 64 bits hold them, and only what is written counts.
pub proof fn law_written_bytes_add_up(s: StreamState, ev: StreamEvent)
    ensures
        ev is Written && s.bytes + ev->len <= u64::MAX ==> stream_after(s, ev).bytes == s.bytes
            + ev->len,
        ev is Written && s.bytes + ev->len > u64::MAX ==> stream_after(s, ev).bytes == u64::MAX,
        !(ev is Written) ==> stream_after(s, ev).bytes == s.bytes,
        !(ev is Remark) ==> stream_after(s, ev).packets == s.packets && stream_after(s, ev).partial
            == s.partial,
{
}

/// Progress is told of what has been written so far, every half second, unless the limit ends the
/// stream.
pub proof fn law_progress_is_told(
    s: StreamState,
    ev: StreamEvent,
    limit: Option<u64>,
    bytes: u64,
    packets: Option<u64>,
)
    ensures
        stream_said(s, ev, limit).contains(CaptureSaid::Progress(bytes, packets)) <==> ev is Written
            && ev->since_report_ms >= 500 && bytes == stream_after(s, ev).bytes && packets == s.packets
            && !(limit is Some && s.bytes + ev->len >= limit->0),
{
    let r = stream_said(s, ev, limit);
    if ev is Written && r.len() > 0 {
        assert(r[0] == r.last());
    }
}

/// Every remark that has ended is passed on, without the white space at its end and unless nothing is
/// left of it.
pub proof fn law_remarks_are_passed_on(lines: Seq<Seq<char>>, x: Seq<char>)
    ensures
        remarks(lines).contains(x) <==> x.len() > 0 && exists|i: int|
            0 <= i < lines.len() && trimmed_end(#[trigger] lines[i]) == x,
    decreases lines.len(),
{
    if lines.len() > 0 {
        let d = lines.drop_last();
        let r = remarks(d);
        let l = trimmed_end(lines.last());
        let t = r.push(l);
        law_remarks_are_passed_on(d, x);
        assert(t[r.len() as int] == l);
        assert(lines[lines.len() - 1] == lines.last());
        if r.contains(x) {
            let j = choose|j: int| 0 <= j < r.len() && r[j] == x;
            assert(t[j] == x);
            let i = choose|i: int| 0 <= i < d.len() && trimmed_end(#[trigger] d[i]) == x;
            assert(lines[i] == d[i]);
        }
        if t.contains(x) && x != l {
            let j = choose|j: int| 0 <= j < t.len() && t[j] == x;
            assert(r[j] == x);
        }
        if exists|i: int| 0 <= i < lines.len() && trimmed_end(#[trigger] lines[i]) == x {
            let i = choose|i: int| 0 <= i < lines.len() && trimmed_end(#[trigger] lines[i]) == x;
            if i < d.len() {
                assert(d[i] == lines[i]);
            }
        }
    }
}

/// The last remark that reports a number of packets decides; without one, what was known stays.
pub proof fn law_last_report_of_packets_counts(lines: Seq<Seq<char>>, known: Option<u64>, k: int)
    ensures
        (forall|i: int| 0 <= i < lines.len() ==> line_packets(#[trigger] lines[i]) is None)
            ==> packets_after(lines, known) == known,
        0 <= k < lines.len() && line_packets(lines[k]) is Some && (forall|i: int|
            k < i < lines.len() ==> line_packets(#[trigger] lines[i]) is None) ==> packets_after(
            lines,
            known,
        ) == line_packets(lines[k]),
    decreases lines.len(),
{
    if lines.len() > 0 {
        let d = lines.drop_last();
        law_last_report_of_packets_counts(d, known, k);
        assert(lines[lines.len() - 1] == lines.last());
        assert forall|i: int| 0 <= i < d.len() implies #[trigger] d[i] == lines[i] by {}
    }
}

/// What is left of the time and what has passed make the whole of it, until it is up.
pub proof fn law_time_left_and_passed_make_the_whole(duration: u64, elapsed: u64)
    ensures
        time_left(Some(duration), elapsed) is Some,
        elapsed <= duration ==> time_left(Some(duration), elapsed)->0 + elapsed == duration,
        elapsed >= duration ==> time_left(Some(duration), elapsed)->0 == 0,
        time_left(None, elapsed) is None,
{
}

} // verus!
