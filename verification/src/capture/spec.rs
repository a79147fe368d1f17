//! What to capture, where to, and for how long.

use vstd::prelude::*;
use vstd::arithmetic::power2::{lemma2_to64, lemma2_to64_rest, pow2};
use crate::approx::{
    finite, is_integer, law_integers_are_exact, lemma_exponent, lemma_too_large, nearest, product,
    round, whole, Approx, ApproxView,
};
use crate::natural::Natural;
use crate::number::{all_digits, digit, is_digit, parse_u64, value};
use crate::text::{
    begins, chars_of, ends, ends_with, has_sub, in_upper, lemma_pieces_single, occurs_at, pieces, same,
    split, string_of_range, to_uppercase, trim, trimmed, views,
};

verus! {

/// What to capture the traffic of.
#[derive(Debug, Clone)]
pub enum CaptureTarget {
    /// A pod.
    Pod { pod: String, namespace: String },
    /// A container, by its name.
    Container(String),
}

/// A capture.
#[derive(Debug, Clone)]
pub struct CaptureSpec {
    pub target: CaptureTarget,
    /// The file to write.
    pub output_path: String,
    /// The image of the capturing container.
    pub image: String,
    /// The interface to capture on, such as `any`.
    pub iface: String,
    /// A filter expression, such as `port 80`.
    pub filter: Option<String>,
    /// Stop after so many milliseconds.
    pub duration_ms: Option<u64>,
    /// Stop once so many bytes have been written.
    pub max_bytes: Option<u64>,
}

// ---------------------------------------------------------------------------
// Labels
// ---------------------------------------------------------------------------

/// Whether a character may stand in a label.
pub open spec fn label_char(c: char) -> bool {
    ('a' <= c && c <= 'z') || ('A' <= c && c <= 'Z') || ('0' <= c && c <= '9') || c == '-' || c
        == '_'
}

/// The text with a dash in place of each character that may not stand in a label.
pub open spec fn sanitized(s: Seq<char>) -> Seq<char> {
    Seq::new(
        s.len(),
        |i: int|
            if label_char(s[i]) {
                s[i]
            } else {
                '-'
            },
    )
}

/// The text with a dash in place of each character other than ASCII letters and digits, dashes and
/// underscores.
pub fn sanitize(s: &str) -> (r: String)
    ensures
        r@ == sanitized(s@),
{
    let v = chars_of(s);
    let mut out = String::new();
    let mut i: usize = 0;
    while i < v.len()
        invariant
            v@ == s@,
            i <= v@.len(),
            out@.len() == i,
            forall|j: int| 0 <= j < i ==> out@[j] == sanitized(v@)[j],
        decreases v@.len() - i,
    {
        let c = v[i];
        let keep = ('a' <= c && c <= 'z') || ('A' <= c && c <= 'Z') || ('0' <= c && c <= '9') || c
            == '-' || c == '_';
        out.push(
            if keep {
                c
            } else {
                '-'
            },
        );
        i = i + 1;
    }
    assert(out@ =~= sanitized(s@));
    out
}

/// The label of a target.
pub open spec fn label_for(t: CaptureTarget) -> Seq<char> {
    match t {
        CaptureTarget::Pod { pod, namespace } => sanitized(
            "pod-"@ + namespace@ + "-"@ + pod@,
        ),
        CaptureTarget::Container(name) => sanitized("container-"@ + name@),
    }
}

/// What a target is called.
pub open spec fn description_of(t: CaptureTarget) -> Seq<char> {
    match t {
        CaptureTarget::Pod { pod, namespace } => "pod "@ + namespace@ + "/"@ + pod@,
        CaptureTarget::Container(name) => "container "@ + name@,
    }
}

impl CaptureTarget {
    /// A short label that can stand in a file's name.
    pub fn label(&self) -> (r: String)
        ensures
            r@ == label_for(*self),
    {
        match self {
            CaptureTarget::Pod { pod, namespace } => {
                let mut s = "pod-".to_owned();
                s.append(namespace.as_str());
                s.append("-");
                s.append(pod.as_str());
                sanitize(s.as_str())
            },
            CaptureTarget::Container(name) => {
                let mut s = "container-".to_owned();
                s.append(name.as_str());
                sanitize(s.as_str())
            },
        }
    }

    /// What it is called.
    pub fn description(&self) -> (r: String)
        ensures
            r@ == description_of(*self),
    {
        match self {
            CaptureTarget::Pod { pod, namespace } => {
                let mut s = "pod ".to_owned();
                s.append(namespace.as_str());
                s.append("/");
                s.append(pod.as_str());
                s
            },
            CaptureTarget::Container(name) => {
                let mut s = "container ".to_owned();
                s.append(name.as_str());
                s
            },
        }
    }
}

/// A file in a directory.
pub open spec fn in_directory(dir: Seq<char>, name: Seq<char>) -> Seq<char> {
    if dir.len() == 0 {
        name
    } else if dir.last() == '/' {
        dir + name
    } else {
        dir + "/"@ + name
    }
}

/// The file for a capture of `target` that begins at a time, given as `YYYYMMDD-HHMMSS`.
pub fn default_output_path(output_dir: &str, target: &CaptureTarget, timestamp: &str) -> (r: String)
    ensures
        r@ == in_directory(output_dir@, label_for(*target) + "-"@ + timestamp@ + ".pcap"@),
{
    let mut name = target.label();
    name.append("-");
    name.append(timestamp);
    name.append(".pcap");
    if output_dir.is_empty() {
        return name;
    }
    proof {
        reveal_strlit("/");
    }
    let mut s = output_dir.to_owned();
    if !ends_with(output_dir, "/") {
        assert(output_dir@.last() != '/') by {
            if output_dir@.last() == '/' {
                assert(output_dir@.subrange(output_dir@.len() - 1, output_dir@.len() as int) =~= "/"@);
            }
        }
        s.append("/");
    } else {
        assert(output_dir@.subrange(output_dir@.len() - 1, output_dir@.len() as int)[0]
            == output_dir@.last());
    }
    s.append(name.as_str());
    s
}

/// A label can stand in a file's name: it holds only letters, digits, dashes and underscores.
pub proof fn law_labels_are_file_names(t: CaptureTarget, i: int)
    requires
        0 <= i < label_for(t).len(),
    ensures
        label_char(label_for(t)[i]),
{
}

/// What may stand in a label stays as it is.
pub proof fn law_sanitizing_twice_changes_nothing(s: Seq<char>)
    ensures
        sanitized(sanitized(s)) == sanitized(s),
{
    assert(sanitized(sanitized(s)) =~= sanitized(s));
}

// ---------------------------------------------------------------------------
// Amounts
// ---------------------------------------------------------------------------

/// Whether a character may stand in a number.
pub open spec fn number_char(c: char) -> bool {
    digit(c) || c == '.'
}

/// The index of the first character that may not stand in a number, from `i` on.
pub open spec fn number_end(s: Seq<char>, i: int) -> int
    decreases s.len() - i,
{
    if i < 0 || i >= s.len() || !number_char(s[i]) {
        i
    } else {
        number_end(s, i + 1)
    }
}

/// The digits before and after the point of a number; nothing where it is none.
pub open spec fn number_parts(s: Seq<char>) -> Option<(Seq<char>, Seq<char>)> {
    let p = pieces(s, '.');
    if p.len() == 1 && all_digits(p[0]) && p[0].len() > 0 {
        Some((p[0], Seq::empty()))
    } else if p.len() == 2 && all_digits(p[0]) && all_digits(p[1]) && p[0].len() + p[1].len() > 0 {
        Some((p[0], p[1]))
    } else {
        None
    }
}

/// The power of ten.
pub open spec fn tens(n: nat) -> nat
    decreases n,
{
    if n == 0 {
        1
    } else {
        10 * tens((n - 1) as nat)
    }
}

/// The number that digits before and after a point stand for.
pub open spec fn number_of(parts: (Seq<char>, Seq<char>)) -> ApproxView {
    nearest(value(parts.0 + parts.1), tens(parts.1.len()), 0)
}

/// A number times an integer.
pub open spec fn times(x: ApproxView, by: nat) -> ApproxView {
    nearest(x.0 * by, 1, x.1)
}

/// The seconds of a number with a unit of time other than milliseconds; without a unit, seconds are
/// meant.
pub open spec fn seconds(x: ApproxView, unit: Seq<char>) -> Option<ApproxView> {
    if unit == "s"@ || unit.len() == 0 {
        Some(x)
    } else if unit == "m"@ {
        Some(times(x, 60))
    } else if unit == "h"@ {
        Some(times(x, 3600))
    } else {
        None
    }
}

/// How many bytes a unit of size has, given in upper case.
pub open spec fn unit_bytes(unit: Seq<char>) -> Option<nat> {
    if unit.len() == 0 || unit == "B"@ {
        Some(1)
    } else if unit == "K"@ || unit == "KB"@ || unit == "KIB"@ {
        Some(1024)
    } else if unit == "M"@ || unit == "MB"@ || unit == "MIB"@ {
        Some(1048576)
    } else if unit == "G"@ || unit == "GB"@ || unit == "GIB"@ {
        Some(1073741824)
    } else {
        None
    }
}

/// The number that a text stands for: none where it is too large.
pub open spec fn number_in(text: Seq<char>) -> Option<ApproxView> {
    match number_parts(text) {
        Some(p) => if finite(number_of(p)) {
            Some(number_of(p))
        } else {
            None
        },
        None => None,
    }
}

/// The milliseconds that a number text stands for with a unit. A whole number of milliseconds is
/// kept as it is, as long as 64 bits hold it.
pub open spec fn millis_in(number: Seq<char>, unit: Seq<char>) -> Option<u64> {
    match number_in(number) {
        Some(x) => if unit == "ms"@ {
            if all_digits(number) && value(number) <= u64::MAX {
                Some(value(number) as u64)
            } else {
                Some(whole(x))
            }
        } else {
            match seconds(x, unit) {
                Some(s) => if finite(s) {
                    Some(whole(times(s, 1000)))
                } else {
                    None
                },
                None => None,
            }
        },
        None => None,
    }
}

/// The milliseconds that a text such as `30s`, `5m`, `1.5h` or `250ms` stands for.
pub open spec fn duration_in(text: Seq<char>) -> Option<u64> {
    let s = trimmed(text);
    let k = number_end(s, 0);
    if s.len() == 0 {
        None
    } else {
        millis_in(s.take(k), s.skip(k))
    }
}

/// The bytes that a number text stands for with a unit, given in upper case.
pub open spec fn bytes_in(number: Seq<char>, unit: Seq<char>) -> Option<u64> {
    match (number_in(number), unit_bytes(unit)) {
        (Some(x), Some(b)) => if finite(times(x, b)) {
            Some(whole(times(x, b)))
        } else {
            None
        },
        _ => None,
    }
}

fn end_of_number(v: &Vec<char>) -> (r: usize)
    ensures
        r == number_end(v@, 0),
        r <= v@.len(),
{
    let mut i: usize = 0;
    while i < v.len() && (is_digit(v[i]) || v[i] == '.')
        invariant
            i <= v@.len(),
            number_end(v@, 0) == number_end(v@, i as int),
        decreases v@.len() - i,
    {
        i = i + 1;
    }
    i
}

/// Reads digits behind those of a number.
fn read_digits(n: &mut Natural, v: &Vec<char>, before: Ghost<Seq<char>>)
    requires
        all_digits(v@),
        old(n)@ == value(before@),
    ensures
        final(n)@ == value(before@ + v@),
{
    let mut i: usize = 0;
    assert(before@ + v@.take(0) =~= before@);
    while i < v.len()
        invariant
            i <= v@.len(),
            all_digits(v@),
            n@ == value(before@ + v@.take(i as int)),
        decreases v@.len() - i,
    {
        assert(digit(v@[i as int]));
        let x: u32 = v[i] as u32 - 48;
        let ghost s = before@ + v@.take(i + 1);
        assert(s.drop_last() =~= before@ + v@.take(i as int));
        assert(s.last() == v@[i as int]);
        n.times_plus(10, x);
        i = i + 1;
    }
    assert(v@.take(i as int) =~= v@);
}

fn power_of_ten(k: usize) -> (r: Natural)
    ensures
        r@ == tens(k as nat),
        r@ > 0,
{
    let mut n = Natural::of(1);
    let mut i: usize = 0;
    while i < k
        invariant
            i <= k,
            n@ == tens(i as nat),
            n@ > 0,
        decreases k - i,
    {
        n.times_plus(10, 0);
        i = i + 1;
    }
    n
}

fn read_number(int_part: &Vec<char>, frac: &Vec<char>) -> (r: Option<Approx>)
    requires
        all_digits(int_part@),
        all_digits(frac@),
    ensures
        match r {
            Some(x) => x.wf() && x@ == number_of((int_part@, frac@)) && finite(x@),
            None => !finite(number_of((int_part@, frac@))),
        },
{
    let mut n = Natural::of(0);
    read_digits(&mut n, int_part, Ghost(Seq::empty()));
    assert(Seq::<char>::empty() + int_part@ =~= int_part@);
    read_digits(&mut n, frac, Ghost(int_part@));
    round(&n, &power_of_ten(frac.len()), 0)
}

fn digits_only(s: &str) -> (r: bool)
    ensures
        r == all_digits(s@),
{
    let v = chars_of(s);
    let mut i: usize = 0;
    while i < v.len()
        invariant
            v@ == s@,
            i <= v@.len(),
            forall|j: int| 0 <= j < i ==> digit(#[trigger] v@[j]),
        decreases v@.len() - i,
    {
        if !is_digit(v[i]) {
            assert(!digit(s@[i as int]));
            return false;
        }
        i = i + 1;
    }
    true
}

fn parse_number(number: &str) -> (r: Option<Approx>)
    ensures
        match r {
            Some(x) => x.wf() && number_in(number@) == Some(x@),
            None => number_in(number@) is None,
        },
{
    let p = split(number, '.');
    assert(views(p@).len() == p@.len());
    let none: Vec<char> = Vec::new();
    assert(none@ =~= Seq::<char>::empty());
    if p.len() == 1 {
        assert(views(p@)[0] == p@[0]@);
        if digits_only(p[0].as_str()) && !p[0].as_str().is_empty() {
            return read_number(&chars_of(p[0].as_str()), &none);
        }
    } else if p.len() == 2 {
        assert(views(p@)[0] == p@[0]@);
        assert(views(p@)[1] == p@[1]@);
        if digits_only(p[0].as_str()) && digits_only(p[1].as_str()) && !(p[0].as_str().is_empty()
            && p[1].as_str().is_empty()) {
            return read_number(&chars_of(p[0].as_str()), &chars_of(p[1].as_str()));
        }
    }
    None
}

fn seconds_of(x: Approx, unit: &str) -> (r: Option<Approx>)
    requires
        x.wf(),
        finite(x@),
    ensures
        match r {
            Some(s) => s.wf() && finite(s@) && seconds(x@, unit@) == Some(s@),
            None => seconds(x@, unit@) is None || !finite(seconds(x@, unit@)->0),
        },
{
    proof {
        reveal_strlit("s");
        reveal_strlit("m");
        reveal_strlit("h");
    }
    if unit.is_empty() || same(unit, "s") {
        Some(x)
    } else if same(unit, "m") {
        product(x, 60)
    } else if same(unit, "h") {
        product(x, 3600)
    } else {
        None
    }
}

/// The milliseconds that a text such as `30s`, `5m`, `1.5h` or `250ms` stands for.
pub fn parse_duration(s: &str) -> (r: Option<u64>)
    ensures
        r == duration_in(s@),
{
    let t = trim(s);
    if t.as_str().is_empty() {
        return None;
    }
    let v = chars_of(t.as_str());
    let k: usize = end_of_number(&v);
    let number = string_of_range(&v, 0, k);
    let unit = string_of_range(&v, k, v.len());
    assert(number@ =~= t@.take(k as int));
    assert(unit@ =~= t@.skip(k as int));
    match parse_number(number.as_str()) {
        Some(x) => if same(unit.as_str(), "ms") {
            if digits_only(number.as_str()) {
                if let Some(n) = parse_u64(number.as_str()) {
                    return Some(n);
                }
            }
            Some(x.truncate())
        } else {
            match seconds_of(x, unit.as_str()) {
                Some(secs) => match product(secs, 1000) {
                    Some(y) => Some(y.truncate()),
                    None => {
                        proof {
                            lemma_too_large((secs.bits * 1000) as nat, 1, secs.exponent as int);
                        }
                        Some(u64::MAX)
                    },
                },
                None => None,
            }
        },
        None => None,
    }
}

/// The bytes that a number text stands for with a unit, given in upper case.
pub fn bytes_of(number: &str, unit: &str) -> (r: Option<u64>)
    ensures
        r == bytes_in(number@, unit@),
{
    let by: u64 = if unit.is_empty() || same(unit, "B") {
        1
    } else if same(unit, "K") || same(unit, "KB") || same(unit, "KIB") {
        1024
    } else if same(unit, "M") || same(unit, "MB") || same(unit, "MIB") {
        1048576
    } else if same(unit, "G") || same(unit, "GB") || same(unit, "GIB") {
        1073741824
    } else {
        return None;
    };
    match parse_number(number) {
        Some(x) => match product(x, by) {
            Some(y) => Some(y.truncate()),
            None => None,
        },
        None => None,
    }
}

/// The unit of a size text.
pub open spec fn unit_text(text: Seq<char>) -> Seq<char> {
    let t = trimmed(text);
    trimmed(t.skip(number_end(t, 0)))
}

/// The bytes that a text stands for, given its unit in upper case.
pub open spec fn bytes_with(text: Seq<char>, unit: Seq<char>) -> Option<u64> {
    let t = trimmed(text);
    if t.len() == 0 {
        None
    } else {
        bytes_in(t.take(number_end(t, 0)), unit)
    }
}

/// The bytes that a text stands for.
pub open spec fn bytes_read(text: Seq<char>) -> Option<u64> {
    bytes_with(text, in_upper(unit_text(text)))
}

/// The bytes that a text such as `100K`, `10M`, `1.5 GiB` or `500` stands for.
pub fn parse_bytes(s: &str) -> (r: Option<u64>)
    ensures
        r == bytes_read(s@),
{
    let t = trim(s);
    if t.as_str().is_empty() {
        return None;
    }
    let v = chars_of(t.as_str());
    let k: usize = end_of_number(&v);
    let number = string_of_range(&v, 0, k);
    let unit = string_of_range(&v, k, v.len());
    assert(number@ =~= t@.take(k as int));
    assert(unit@ =~= t@.skip(k as int));
    let upper = to_uppercase(trim(unit.as_str()).as_str());
    bytes_of(number.as_str(), upper.as_str())
}

/// How many milliseconds a unit of time has.
pub open spec fn unit_millis(unit: Seq<char>) -> Option<nat> {
    if unit == "ms"@ {
        Some(1)
    } else if unit == "s"@ || unit.len() == 0 {
        Some(1000)
    } else if unit == "m"@ {
        Some(60000)
    } else if unit == "h"@ {
        Some(3600000)
    } else {
        None
    }
}

/// A whole number of a unit of time is exact: of milliseconds as long as 64 bits hold it, and of
/// the other units as long as its milliseconds have no more than 53 bits.
pub proof fn law_whole_times_are_exact(digits: Seq<char>, unit: Seq<char>)
    requires
        digits.len() > 0,
        all_digits(digits),
        unit_millis(unit) is Some,
        if unit == "ms"@ {
            value(digits) <= u64::MAX
        } else {
            value(digits) * unit_millis(unit)->0 < 0x20_0000_0000_0000
        },
    ensures
        duration_in(digits + unit) == Some((value(digits) * unit_millis(unit)->0) as u64),
{
    lemma_whole_number(digits);
    reveal_strlit("ms");
    reveal_strlit("s");
    reveal_strlit("m");
    reveal_strlit("h");
    assert("ms"@.len() == 2 && "s"@.len() == 1 && "m"@.len() == 1 && "h"@.len() == 1);
    assert("s"@[0] == 's' && "m"@[0] == 'm' && "h"@[0] == 'h' && "ms"@[0] == 'm' && "ms"@[1]
        == 's');
    let s = digits + unit;
    assert(digit(digits[0]) && digit(digits.last()));
    assert(s[0] == digits[0]);
    assert(s.last() == if unit.len() > 0 {
        unit.last()
    } else {
        digits.last()
    });
    assert(trimmed(s) == s);
    lemma_number_end(digits, unit, 0);
    assert(s.take(digits.len() as int) =~= digits);
    assert(s.skip(digits.len() as int) =~= unit);
    let v = value(digits);
    let x = number_of((digits, Seq::<char>::empty()));
    if unit == "ms"@ {
        lemma2_to64();
        lemma2_to64_rest();
        assert(1 * pow2(64) == pow2(64) && v * 1 == v) by (nonlinear_arith);
        lemma_exponent(v, 1, 0, 64);
    } else {
        let by = (unit_millis(unit)->0 / 1000) as nat;
        assert(v <= v * by && v * by <= v * by * 1000 && v <= v * by * 1000 && v * by * 1000 == v
            * (by * 1000)) by (nonlinear_arith)
            requires
                by >= 1,
                v >= 0,
        ;
        law_integers_are_exact(v, 0);
        if by > 1 {
            lemma_times_integer(x, v, by);
            lemma_times_integer(times(x, by), v * by, 1000);
        } else {
            assert(v * 1 == v) by (nonlinear_arith);
            lemma_times_integer(x, v, 1000);
        }
    }
}

/// A number ends where a unit begins.
proof fn lemma_number_end(digits: Seq<char>, unit: Seq<char>, i: int)
    requires
        all_digits(digits),
        0 <= i <= digits.len(),
        unit.len() > 0 ==> !number_char(unit[0]),
    ensures
        number_end(digits + unit, i) == digits.len(),
    decreases digits.len() - i,
{
    if i < digits.len() {
        assert(digit(digits[i]));
        lemma_number_end(digits, unit, i + 1);
    }
}

/// A whole number of bytes, or of a unit of bytes, is exact as long as it has no more than 53 bits.
pub proof fn law_whole_sizes_are_exact(digits: Seq<char>, unit: Seq<char>)
    requires
        digits.len() > 0,
        all_digits(digits),
        unit_bytes(unit) is Some,
        value(digits) * unit_bytes(unit)->0 < 0x20_0000_0000_0000,
    ensures
        bytes_in(digits, unit) == Some((value(digits) * unit_bytes(unit)->0) as u64),
{
    lemma_whole_number(digits);
    let v = value(digits);
    let by = unit_bytes(unit)->0;
    assert(v <= v * by) by (nonlinear_arith)
        requires
            by >= 1,
            v >= 0,
    ;
    law_integers_are_exact(v, 0);
    lemma_times_integer(number_of((digits, Seq::<char>::empty())), v, by);
}

proof fn lemma_whole_number(digits: Seq<char>)
    requires
        digits.len() > 0,
        all_digits(digits),
    ensures
        number_parts(digits) == Some((digits, Seq::<char>::empty())),
        number_of((digits, Seq::<char>::empty())) == nearest(value(digits) * pow2(0), 1, 0),
{
    assert forall|i: int| 0 <= i < digits.len() implies digits[i] != '.' by {
        assert(digit(digits[i]));
    }
    lemma_pieces_single(digits, '.');
    assert(digits + Seq::<char>::empty() =~= digits);
    lemma2_to64();
    assert(value(digits) * 1 == value(digits)) by (nonlinear_arith);
}

proof fn lemma_times_integer(x: ApproxView, z: nat, by: nat)
    requires
        is_integer(x, z),
        z * by < 0x20_0000_0000_0000,
    ensures
        is_integer(times(x, by), z * by),
        finite(times(x, by)),
        whole(times(x, by)) == z * by,
{
    let p = pow2((-x.1) as nat);
    assert((z * p) * by == (z * by) * p) by (nonlinear_arith);
    law_integers_are_exact(z * by, x.1);
}

/// A unit of size is a thousand and twenty-four of the next smaller one, however it is written; a
/// number without a unit means bytes, and a unit that is none of these means nothing.
pub proof fn law_units_of_size(unit: Seq<char>)
    ensures
        unit.len() == 0 || unit == "B"@ ==> unit_bytes(unit) == Some(1nat),
        unit == "K"@ || unit == "KB"@ || unit == "KIB"@ ==> unit_bytes(unit) == Some(1024nat),
        unit == "M"@ || unit == "MB"@ || unit == "MIB"@ ==> unit_bytes(unit) == Some(
            (1024 * 1024) as nat,
        ),
        unit == "G"@ || unit == "GB"@ || unit == "GIB"@ ==> unit_bytes(unit) == Some(
            (1024 * 1024 * 1024) as nat,
        ),
        unit.len() > 3 ==> unit_bytes(unit) is None,
{
    reveal_strlit("B");
    reveal_strlit("K");
    reveal_strlit("KB");
    reveal_strlit("KIB");
    reveal_strlit("M");
    reveal_strlit("MB");
    reveal_strlit("MIB");
    reveal_strlit("G");
    reveal_strlit("GB");
    reveal_strlit("GIB");
    if unit == "K"@ || unit == "KB"@ || unit == "KIB"@ {
        assert(unit[0] == 'K');
    }
    if unit == "M"@ || unit == "MB"@ || unit == "MIB"@ {
        assert(unit[0] == 'M');
    }
    if unit == "G"@ || unit == "GB"@ || unit == "GIB"@ {
        assert(unit[0] == 'G');
    }
    assert("B"@[0] == 'B');
}

/// A number with a unit that is none of time stands for no time, and a text without a number for
/// nothing.
pub proof fn law_unknown_amounts_are_refused(number: Seq<char>, unit: Seq<char>)
    ensures
        unit != "ms"@ && unit != "s"@ && unit != "m"@ && unit != "h"@ && unit.len() > 0
            ==> millis_in(number, unit) is None,
        number.len() == 0 ==> millis_in(number, unit) is None && bytes_in(number, unit) is None,
        duration_in(Seq::<char>::empty()) is None,
        bytes_read(Seq::<char>::empty()) is None,
{
    if number.len() == 0 {
        lemma_pieces_single(number, '.');
        assert(pieces(number, '.')[0].len() == 0);
    }
    let e = Seq::<char>::empty();
    crate::text::law_trimming_takes_white_space(e);
    assert(trimmed(e).len() == 0);
}

/// A text keeps its length and every character that may stand in a label; the others become dashes.
pub proof fn law_sanitizing_keeps_what_it_can(s: Seq<char>, i: int)
    requires
        0 <= i < s.len(),
    ensures
        sanitized(s).len() == s.len(),
        'a' <= s[i] <= 'z' || 'A' <= s[i] <= 'Z' || '0' <= s[i] <= '9' || s[i] == '-' || s[i] == '_'
            ==> sanitized(s)[i] == s[i],
        sanitized(s)[i] == s[i] || sanitized(s)[i] == '-',
        s[i] == '/' || s[i] == ' ' || s[i] == '.' || s[i] == ':' ==> sanitized(s)[i] == '-',
{
}

/// A label tells what kind of thing is captured, and holds its name and the namespace of a pod.
pub proof fn law_labels_tell_the_target(t: CaptureTarget)
    ensures
        match t {
            CaptureTarget::Pod { pod, namespace } => {
                &&& begins(label_for(t), "pod-"@)
                &&& ends(label_for(t), sanitized(pod@))
                &&& label_for(t).len() == namespace@.len() + pod@.len() + 5
                &&& has_sub(label_for(t), sanitized(namespace@))
            },
            CaptureTarget::Container(name) => {
                &&& begins(label_for(t), "container-"@)
                &&& ends(label_for(t), sanitized(name@))
                &&& label_for(t).len() == name@.len() + 10
            },
        },
{
    reveal_strlit("pod-");
    reveal_strlit("container-");
    reveal_strlit("-");
    let l = label_for(t);
    match t {
        CaptureTarget::Pod { pod, namespace } => {
            let n = pod@.len();
            assert(l.subrange(l.len() - n, l.len() as int) =~= sanitized(pod@));
            assert(l.subrange(0, 4) =~= "pod-"@);
            assert(l.subrange(4, namespace@.len() as int + 4) =~= sanitized(namespace@));
            assert(occurs_at(l, sanitized(namespace@), 4));
        },
        CaptureTarget::Container(name) => {
            let n = name@.len();
            assert(l.subrange(l.len() - n, l.len() as int) =~= sanitized(name@));
            assert(l.subrange(0, 10) =~= "container-"@);
        },
    }
}

/// What a target is called tells its kind and its name.
pub proof fn law_descriptions_tell_the_target(t: CaptureTarget)
    ensures
        match t {
            CaptureTarget::Pod { pod, namespace } => ends(
                description_of(t),
                namespace@ + "/"@ + pod@,
            ) && begins(description_of(t), "pod "@),
            CaptureTarget::Container(name) => ends(description_of(t), name@) && begins(
                description_of(t),
                "container "@,
            ),
        },
{
    let d = description_of(t);
    match t {
        CaptureTarget::Pod { pod, namespace } => {
            let n = namespace@ + "/"@ + pod@;
            assert(d.subrange(d.len() - n.len(), d.len() as int) =~= n);
            assert(d.subrange(0, "pod "@.len() as int) =~= "pod "@);
        },
        CaptureTarget::Container(name) => {
            assert(d.subrange(d.len() - name@.len(), d.len() as int) =~= name@);
            assert(d.subrange(0, "container "@.len() as int) =~= "container "@);
        },
    }
}

/// A file in a directory has the directory in front and its own name at the end, with one slash
/// between them where the directory does not end in one.
pub proof fn law_files_are_in_their_directory(dir: Seq<char>, name: Seq<char>)
    ensures
        begins(in_directory(dir, name), dir),
        ends(in_directory(dir, name), name),
        dir.len() == 0 ==> in_directory(dir, name) == name,
        dir.len() > 0 && dir.last() != '/' ==> in_directory(dir, name).len() == dir.len() + 1
            + name.len() && in_directory(dir, name)[dir.len() as int] == '/',
        dir.len() > 0 && dir.last() == '/' ==> in_directory(dir, name).len() == dir.len() + name.len(),
{
    reveal_strlit("/");
    let r = in_directory(dir, name);
    assert(r.subrange(0, dir.len() as int) =~= dir);
    assert(r.subrange(r.len() - name.len(), r.len() as int) =~= name);
}

/// A number with a point has the digits before and after it, and each digit after it makes it ten times
/// as fine.
pub proof fn law_points_divide_numbers(a: Seq<char>, b: Seq<char>)
    requires
        all_digits(a),
        all_digits(b),
        a.len() + b.len() > 0,
    ensures
        number_parts(a.push('.') + b) == Some((a, b)),
        tens(b.len() + 1) == 10 * tens(b.len()),
        tens(0) == 1,
{
    assert forall|i: int| 0 <= i < a.len() implies a[i] != '.' by {
        assert(digit(a[i]));
    }
    assert forall|i: int| 0 <= i < b.len() implies b[i] != '.' by {
        assert(digit(b[i]));
    }
    crate::text::lemma_pieces_head(a, '.', b);
    lemma_pieces_single(b, '.');
    assert(pieces(a.push('.') + b, '.') =~= seq![a, b]);
}

} // verus!
