//! Versions of releases.

use vstd::prelude::*;
use crate::number::{
    decimal, digit, law_decimal_reads_back, lemma_decimal, number_upto, parse_upto,
};
use crate::text::{
    chars_of, lemma_pieces_head, lemma_pieces_single, pieces, split,
    string_of_range, strip_start, stripped_start, trim, trimmed, trimmed_start, views, white,
};

verus! {

/// What stands before the first `-` or `+`.
pub open spec fn before_suffix(s: Seq<char>) -> Seq<char>
    decreases s.len(),
{
    if s.len() == 0 || s[0] == '-' || s[0] == '+' {
        Seq::empty()
    } else {
        seq![s[0]] + before_suffix(s.skip(1))
    }
}

/// The parts of a version between its dots, without white space around it, leading `v`s and a
/// pre-release or build suffix.
pub open spec fn version_parts(v: Seq<char>) -> Seq<Seq<char>> {
    pieces(before_suffix(stripped_start(trimmed(v), 'v')), '.')
}

/// The number in part `i`, zero where there is no such part.
pub open spec fn part_number(parts: Seq<Seq<char>>, i: int) -> Option<nat> {
    if i < parts.len() {
        number_upto(parts[i], u32::MAX as nat)
    } else {
        Some(0)
    }
}

/// Major, minor and patch number of a version.
pub open spec fn semver(v: Seq<char>) -> Option<(nat, nat, nat)> {
    let p = version_parts(v);
    match (part_number(p, 0), part_number(p, 1), part_number(p, 2)) {
        (Some(a), Some(b), Some(c)) => Some((a, b, c)),
        _ => None,
    }
}

/// Whether the first version comes after the second.
pub open spec fn later(a: (nat, nat, nat), b: (nat, nat, nat)) -> bool {
    a.0 > b.0 || (a.0 == b.0 && (a.1 > b.1 || (a.1 == b.1 && a.2 > b.2)))
}

/// Whether `latest` is a later version than `current`; texts that are no versions are not.
pub open spec fn newer(latest: Seq<char>, current: Seq<char>) -> bool {
    match (semver(latest), semver(current)) {
        (Some(l), Some(c)) => later(l, c),
        _ => false,
    }
}

fn cut_suffix(s: &str) -> (r: String)
    ensures
        r@ == before_suffix(s@),
{
    let v = chars_of(s);
    let mut i: usize = 0;
    assert(v@.skip(0) =~= v@);
    assert(v@.take(0) + before_suffix(v@.skip(0)) =~= before_suffix(v@));
    while i < v.len() && v[i] != '-' && v[i] != '+'
        invariant
            i <= v@.len(),
            v@.take(i as int) + before_suffix(v@.skip(i as int)) == before_suffix(v@),
        decreases v@.len() - i,
    {
        let ghost rest = v@.skip(i as int);
        assert(rest[0] == v@[i as int]);
        assert(rest.skip(1) =~= v@.skip(i + 1));
        assert(v@.take(i + 1) =~= v@.take(i as int).push(v@[i as int]));
        assert(v@.take(i as int) + (seq![rest[0]] + before_suffix(rest.skip(1))) =~= v@.take(i + 1)
            + before_suffix(v@.skip(i + 1)));
        i = i + 1;
    }
    assert(i < v@.len() ==> v@.skip(i as int)[0] == v@[i as int]);
    assert(v@.take(i as int) + Seq::<char>::empty() =~= v@.take(i as int));
    assert(v@.subrange(0, i as int) =~= v@.take(i as int));
    string_of_range(&v, 0, i)
}

fn number_at(parts: &Vec<String>, i: usize) -> (r: Option<u32>)
    ensures
        match r {
            Some(n) => part_number(views(parts@), i as int) == Some(n as nat),
            None => part_number(views(parts@), i as int) is None,
        },
{
    if i < parts.len() {
        assert(views(parts@)[i as int] == parts@[i as int]@);
        match parse_upto(parts[i].as_str(), u32::MAX as u64) {
            Some(n) => Some(n as u32),
            None => None,
        }
    } else {
        Some(0)
    }
}

/// Reads a version `major.minor.patch`, ignoring leading `v`s and any pre-release or build
/// suffix. Missing minor and patch numbers are zero.
pub fn parse_semver(v: &str) -> (r: Option<(u32, u32, u32)>)
    ensures
        match r {
            Some(t) => semver(v@) == Some((t.0 as nat, t.1 as nat, t.2 as nat)),
            None => semver(v@) is None,
        },
{
    let t = trim(v);
    let s = strip_start(t.as_str(), 'v');
    let core = cut_suffix(s.as_str());
    let parts = split(core.as_str(), '.');
    match (number_at(&parts, 0), number_at(&parts, 1), number_at(&parts, 2)) {
        (Some(a), Some(b), Some(c)) => Some((a, b, c)),
        _ => None,
    }
}

/// Whether `latest` is a strictly later version than `current`.
pub fn is_newer(latest: &str, current: &str) -> (r: bool)
    ensures
        r == newer(latest@, current@),
{
    match (parse_semver(latest), parse_semver(current)) {
        (Some(l), Some(c)) => l.0 > c.0 || (l.0 == c.0 && (l.1 > c.1 || (l.1 == c.1 && l.2 > c.2))),
        _ => false,
    }
}

/// The version that the tag of a release names.
pub fn release_version(tag: &str) -> (r: String)
    ensures
        r@ == trimmed(stripped_start(tag@, 'v')),
{
    let s = strip_start(tag, 'v');
    trim(s.as_str())
}

/// No version is newer than itself, two versions are not each newer than the other, and newer
/// than a newer one is newer.
pub proof fn law_newer_is_an_order(a: Seq<char>, b: Seq<char>, c: Seq<char>)
    ensures
        !newer(a, a),
        newer(a, b) ==> !newer(b, a),
        newer(a, b) && newer(b, c) ==> newer(a, c),
{
}

/// Of two versions with different numbers one is newer.
pub proof fn law_newer_is_total(a: Seq<char>, b: Seq<char>)
    requires
        semver(a) is Some,
        semver(b) is Some,
        semver(a) != semver(b),
    ensures
        newer(a, b) || newer(b, a),
{
}

/// A version in its usual notation.
pub open spec fn version_text(a: u32, b: u32, c: u32) -> Seq<char> {
    decimal(a as nat).push('.') + (decimal(b as nat).push('.') + decimal(c as nat))
}

/// Whether a character is a digit or a point.
spec fn plain_char(c: char) -> bool {
    digit(c) || c == '.'
}

proof fn lemma_version_text(a: u32, b: u32, c: u32)
    ensures
        version_text(a, b, c).len() > 0,
        forall|i: int|
            0 <= i < version_text(a, b, c).len() ==> plain_char(#[trigger] version_text(a, b, c)[i]),
        pieces(version_text(a, b, c), '.') == seq![
            decimal(a as nat),
            decimal(b as nat),
            decimal(c as nat),
        ],
{
    let (x, y, z) = (decimal(a as nat), decimal(b as nat), decimal(c as nat));
    lemma_decimal(a as nat);
    lemma_decimal(b as nat);
    lemma_decimal(c as nat);
    let t = version_text(a, b, c);
    assert forall|i: int| 0 <= i < t.len() implies plain_char(#[trigger] t[i]) by {
        if i < x.len() {
            assert(digit(x[i]));
        } else if x.len() < i < x.len() + 1 + y.len() {
            assert(digit(y[i - x.len() - 1]));
        } else if i > x.len() + 1 + y.len() {
            assert(digit(z[i - x.len() - y.len() - 2]));
        }
    }
    assert forall|i: int| 0 <= i < x.len() implies x[i] != '.' by {
        assert(digit(x[i]));
    }
    assert forall|i: int| 0 <= i < y.len() implies y[i] != '.' by {
        assert(digit(y[i]));
    }
    assert forall|i: int| 0 <= i < z.len() implies z[i] != '.' by {
        assert(digit(z[i]));
    }
    lemma_pieces_head(x, '.', y.push('.') + z);
    lemma_pieces_head(y, '.', z);
    lemma_pieces_single(z, '.');
    assert(pieces(t, '.') =~= seq![x, y, z]);
}

proof fn lemma_before_suffix(s: Seq<char>, rest: Seq<char>)
    requires
        forall|i: int| 0 <= i < s.len() ==> plain_char(#[trigger] s[i]),
        rest.len() > 0 ==> rest[0] == '-' || rest[0] == '+',
    ensures
        before_suffix(s + rest) == s,
    decreases s.len(),
{
    if s.len() > 0 {
        let r = s.skip(1);
        assert forall|i: int| 0 <= i < r.len() implies plain_char(#[trigger] r[i]) by {
            assert(r[i] == s[i + 1]);
        }
        lemma_before_suffix(r, rest);
        assert((s + rest).skip(1) =~= r + rest);
        assert(plain_char(s[0]));
        assert(seq![s[0]] + r =~= s);
    } else {
        assert(s + rest =~= rest);
    }
}

/// The numbers of a version are read from its notation, with or without a `v` before it and whatever
/// suffix follows.
pub proof fn law_versions_read_back(a: u32, b: u32, c: u32, suffix: Seq<char>)
    requires
        suffix.len() > 0 ==> (suffix[0] == '-' || suffix[0] == '+') && !white(suffix.last()),
    ensures
        semver(version_text(a, b, c) + suffix) == Some((a as nat, b as nat, c as nat)),
        semver(seq!['v'] + (version_text(a, b, c) + suffix)) == Some((a as nat, b as nat, c as nat)),
{
    let t = version_text(a, b, c);
    let s = t + suffix;
    let v = seq!['v'] + s;
    assert(trimmed(s) == s && stripped_start(s, 'v') == s && trimmed(v) == v && stripped_start(v, 'v')
        == s) by {
        lemma_clean_version(a, b, c, suffix);
    }
    lemma_semver(s, s, a, b, c, suffix);
    lemma_semver(v, s, a, b, c, suffix);
}

proof fn lemma_clean_version(a: u32, b: u32, c: u32, suffix: Seq<char>)
    requires
        suffix.len() > 0 ==> (suffix[0] == '-' || suffix[0] == '+') && !white(suffix.last()),
    ensures
        trimmed(version_text(a, b, c) + suffix) == version_text(a, b, c) + suffix,
        stripped_start(version_text(a, b, c) + suffix, 'v') == version_text(a, b, c) + suffix,
        trimmed(seq!['v'] + (version_text(a, b, c) + suffix)) == seq!['v'] + (version_text(a, b, c)
            + suffix),
        stripped_start(seq!['v'] + (version_text(a, b, c) + suffix), 'v') == version_text(a, b, c)
            + suffix,
{
    let t = version_text(a, b, c);
    lemma_version_text(a, b, c);
    lemma_clean(t, suffix);
}

proof fn lemma_clean(t: Seq<char>, suffix: Seq<char>)
    requires
        t.len() > 0,
        forall|i: int| 0 <= i < t.len() ==> plain_char(#[trigger] t[i]),
        suffix.len() > 0 ==> !white(suffix.last()),
    ensures
        trimmed(t + suffix) == t + suffix,
        stripped_start(t + suffix, 'v') == t + suffix,
        trimmed(seq!['v'] + (t + suffix)) == seq!['v'] + (t + suffix),
        stripped_start(seq!['v'] + (t + suffix), 'v') == t + suffix,
{
    let s = t + suffix;
    let v = seq!['v'] + s;
    assert(plain_char(t[0]) && plain_char(t[t.len() - 1]));
    assert(s[0] == t[0]);
    assert(v[0] == 'v');
    if suffix.len() > 0 {
        assert(s.last() == suffix.last());
    } else {
        assert(s.last() == t[t.len() - 1]);
    }
    assert(v.last() == s.last());
    assert(trimmed_start(s) == s && trimmed_start(v) == v);
    assert(v.skip(1) =~= s);
    assert(stripped_start(s, 'v') == s);
}

proof fn lemma_semver(v: Seq<char>, s: Seq<char>, a: u32, b: u32, c: u32, suffix: Seq<char>)
    requires
        s == version_text(a, b, c) + suffix,
        suffix.len() > 0 ==> suffix[0] == '-' || suffix[0] == '+',
        trimmed(v) == v,
        stripped_start(v, 'v') == s,
    ensures
        semver(v) == Some((a as nat, b as nat, c as nat)),
{
    let t = version_text(a, b, c);
    assert(version_parts(v) == seq![decimal(a as nat), decimal(b as nat), decimal(c as nat)]) by {
        lemma_version_text(a, b, c);
        lemma_before_suffix(t, suffix);
    }
    law_decimal_reads_back(a as nat, u32::MAX as nat);
    law_decimal_reads_back(b as nat, u32::MAX as nat);
    law_decimal_reads_back(c as nat, u32::MAX as nat);
}

/// The major number decides, then the minor, then the patch number.
pub proof fn law_greater_numbers_are_newer(a: u32, b: u32, c: u32, x: u32, y: u32, z: u32)
    ensures
        newer(version_text(a, b, c), version_text(x, y, z)) <==> a > x || a == x && (b > y || b == y
            && c > z),
{
    let none = Seq::<char>::empty();
    law_versions_read_back(a, b, c, none);
    law_versions_read_back(x, y, z, none);
    assert(version_text(a, b, c) + none =~= version_text(a, b, c));
    assert(version_text(x, y, z) + none =~= version_text(x, y, z));
}

/// A text that is no version is never newer, and nothing is newer than it.
pub proof fn law_other_texts_are_never_newer(latest: Seq<char>, current: Seq<char>)
    ensures
        semver(latest) is None || semver(current) is None ==> !newer(latest, current),
{
}

} // verus!
