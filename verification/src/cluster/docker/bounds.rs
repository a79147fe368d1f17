//! How far an archive reaches: where its first file is found, and whether the place behind that
//! file can be counted.

use vstd::prelude::*;

verus! {

// ---------------------------------------------------------------------------
// The header of an entry
// ---------------------------------------------------------------------------

/// Whether there is a whole block at a place of an archive.
pub open spec fn has_block(archive: Seq<u8>, at: int) -> bool {
    0 <= at && at + 512 <= archive.len()
}

/// Whether the block at a place is a header in the format of GNU.
pub open spec fn is_gnu(archive: Seq<u8>, at: int) -> bool {
    archive.subrange(at + 257, at + 265) == seq![117u8, 115, 116, 97, 114, 32, 32, 0]
}

/// Whether the block at a place is a header in the standard format.
pub open spec fn is_ustar(archive: Seq<u8>, at: int) -> bool {
    archive.subrange(at + 257, at + 265) == seq![117u8, 115, 116, 97, 114, 0, 48, 48]
}

/// Whether the block at a place is the header of a list of attributes of the next entry.
pub open spec fn is_attributes(archive: Seq<u8>, at: int) -> bool {
    archive[at + 156] == 120
}

/// Whether the block at a place is the header of an entry that describes the next one: a long name,
/// a long link or a list of attributes.
pub open spec fn is_description(archive: Seq<u8>, at: int) -> bool {
    &&& archive[at + 156] == 76 || archive[at + 156] == 75 || is_attributes(archive, at)
    &&& is_gnu(archive, at) || is_ustar(archive, at)
}

/// Whether the size of the entry at a place is not written in digits.
pub open spec fn size_in_bits(archive: Seq<u8>, at: int) -> bool {
    archive[at + 124] >= 128
}

/// The number that bytes stand for, the most significant first.
pub open spec fn in_bits(s: Seq<u8>) -> nat
    decreases s.len(),
{
    if s.len() == 0 {
        0
    } else {
        in_bits(s.drop_last()) * 256 + s.last() as nat
    }
}

/// The number that octal digits stand for.
pub open spec fn in_octal(s: Seq<u8>) -> nat
    decreases s.len(),
{
    if s.len() == 0 {
        0
    } else {
        (in_octal(s.drop_last()) * 8 + (s.last() - 48)) as nat
    }
}

/// What precedes the first byte that is zero.
pub open spec fn before_zero(s: Seq<u8>) -> Seq<u8>
    decreases s.len(),
{
    if s.len() == 0 || s[0] == 0 {
        Seq::empty()
    } else {
        seq![s[0]] + before_zero(s.skip(1))
    }
}

/// Whether a byte is white space.
pub open spec fn blank(b: u8) -> bool {
    (9 <= b && b <= 13) || b == 32
}

/// Bytes without the white space before them.
pub open spec fn past_blanks(s: Seq<u8>) -> Seq<u8>
    decreases s.len(),
{
    if s.len() > 0 && blank(s[0]) {
        past_blanks(s.skip(1))
    } else {
        s
    }
}

/// Bytes without the white space behind them.
pub open spec fn upto_blanks(s: Seq<u8>) -> Seq<u8>
    decreases s.len(),
{
    if s.len() > 0 && blank(s.last()) {
        upto_blanks(s.drop_last())
    } else {
        s
    }
}

/// Bytes without a plus sign before them.
pub open spec fn past_plus(s: Seq<u8>) -> Seq<u8> {
    if s.len() > 0 && s[0] == 43 {
        s.skip(1)
    } else {
        s
    }
}

/// Whether a byte is an octal digit.
pub open spec fn octal_digit(b: u8) -> bool {
    48 <= b && b <= 55
}

/// The number that a text of octal digits stands for, white space and a plus sign aside; nothing
/// where it stands for none.
pub open spec fn octal_in(s: Seq<u8>) -> Option<nat> {
    let d = past_plus(past_blanks(upto_blanks(s)));
    if d.len() > 0 && (forall|i: int| 0 <= i < d.len() ==> octal_digit(#[trigger] d[i])) {
        Some(in_octal(d))
    } else {
        None
    }
}

/// The digits of the size of the entry at a place.
pub open spec fn size_digits(archive: Seq<u8>, at: int) -> Seq<u8> {
    before_zero(archive.subrange(at + 124, at + 136))
}

/// The size of the entry at a place; nothing where it stands for no number.
pub open spec fn size_at(archive: Seq<u8>, at: int) -> Option<nat> {
    if size_in_bits(archive, at) {
        Some(in_bits(archive.subrange(at + 128, at + 136)))
    } else {
        octal_in(size_digits(archive, at))
    }
}

/// Whether the size of the entry at a place is written in other characters than those of ASCII.
pub open spec fn size_is_odd(archive: Seq<u8>, at: int) -> bool {
    let d = size_digits(archive, at);
    !size_in_bits(archive, at) && exists|i: int| 0 <= i < d.len() && (#[trigger] d[i]) >= 128
}

/// A size, filled up to whole blocks.
pub open spec fn in_blocks(n: nat) -> nat {
    (n + 511) / 512 * 512
}

/// Whether a part of an archive holds the start of an attribute of the size: ` size=`.
pub open spec fn names_size(archive: Seq<u8>, from: int, to: int) -> bool {
    exists|i: int|
        from <= i && i + 6 <= to && #[trigger] archive.subrange(i, i + 6) == seq![
            32u8,
            115,
            105,
            122,
            101,
            61,
        ]
}

// ---------------------------------------------------------------------------
// The place behind the first file
// ---------------------------------------------------------------------------

/// Whether the block at a place is the header of a file with holes whose list of holes goes on in
/// further blocks.
pub open spec fn holes_go_on(archive: Seq<u8>, at: int) -> bool {
    &&& archive[at + 156] == 83
    &&& archive[at + 482] == 1
    &&& is_gnu(archive, at)
}

/// Whether the place behind the first file of an archive may lie further than can be counted, from
/// a place on: what describes the file is passed by. The list of holes of the file goes on, and its
/// size is not written in digits or is one of its attributes (`sized` tells whether one was passed
/// by). A description whose size is not written in ASCII is not passed by: it counts as one behind
/// which the file cannot be found.
pub open spec fn out_of_bounds_from(archive: Seq<u8>, at: int, sized: bool) -> bool
    decreases
            (if at < archive.len() {
                archive.len() - at
            } else {
                0
            }),
{
    if !has_block(archive, at) {
        false
    } else if is_description(archive, at) {
        if size_is_odd(archive, at) {
            true
        } else {
            match size_at(archive, at) {
                None => false,
                Some(n) => out_of_bounds_from(
                    archive,
                    at + 512 + in_blocks(n),
                    sized || (is_attributes(archive, at) && names_size(
                        archive,
                        at + 512,
                        at + 512 + n,
                    )),
                ),
            }
        }
    } else {
        holes_go_on(archive, at) && (size_in_bits(archive, at) || sized)
    }
}

/// Whether the place behind the first file of an archive may lie further than can be counted.
pub open spec fn out_of_bounds(archive: Seq<u8>) -> bool {
    out_of_bounds_from(archive, 0, false)
}

// ---------------------------------------------------------------------------
// Reading headers
// ---------------------------------------------------------------------------

/// Whether bytes stand at a place of an archive.
fn stands_there(archive: &Vec<u8>, at: usize, bytes: &Vec<u8>) -> (r: bool)
    requires
        at + bytes@.len() <= archive@.len(),
    ensures
        r == (archive@.subrange(at as int, at + bytes@.len()) == bytes@),
{
    assert(archive.len() == archive@.len());
    let mut i: usize = 0;
    while i < bytes.len()
        invariant
            archive@.len() <= usize::MAX,
            at + bytes@.len() <= archive@.len(),
            i <= bytes@.len(),
            forall|j: int| 0 <= j < i ==> archive@[at + j] == bytes@[j],
        decreases bytes@.len() - i,
    {
        if archive[at + i] != bytes[i] {
            assert(archive@.subrange(at as int, at + bytes@.len())[i as int] != bytes@[i as int]);
            return false;
        }
        i = i + 1;
    }
    assert(archive@.subrange(at as int, at + bytes@.len()) =~= bytes@);
    true
}

fn look_for_gnu(archive: &Vec<u8>, at: usize) -> (r: bool)
    requires
        has_block(archive@, at as int),
    ensures
        r == is_gnu(archive@, at as int),
{
    assert(archive.len() == archive@.len());
    let magic: Vec<u8> = vec![117, 115, 116, 97, 114, 32, 32, 0];
    assert(magic@ =~= seq![117u8, 115, 116, 97, 114, 32, 32, 0]);
    stands_there(archive, at + 257, &magic)
}

fn look_for_description(archive: &Vec<u8>, at: usize) -> (r: bool)
    requires
        has_block(archive@, at as int),
    ensures
        r == is_description(archive@, at as int),
{
    assert(archive.len() == archive@.len());
    let kind: u8 = archive[at + 156];
    if kind != 76 && kind != 75 && kind != 120 {
        return false;
    }
    let magic: Vec<u8> = vec![117, 115, 116, 97, 114, 0, 48, 48];
    assert(magic@ =~= seq![117u8, 115, 116, 97, 114, 0, 48, 48]);
    look_for_gnu(archive, at) || stands_there(archive, at + 257, &magic)
}

fn look_for_size_name(archive: &Vec<u8>, from: usize, to: usize) -> (r: bool)
    requires
        from <= to <= archive@.len(),
    ensures
        r == names_size(archive@, from as int, to as int),
{
    assert(archive.len() == archive@.len());
    let name: Vec<u8> = vec![32, 115, 105, 122, 101, 61];
    let ghost wanted = seq![32u8, 115, 105, 122, 101, 61];
    assert(name@ =~= wanted);
    let mut i: usize = from;
    while to - i >= 6
        invariant
            archive@.len() <= usize::MAX,
            from <= i <= to <= archive@.len(),
            name@ == wanted,
            wanted == seq![32u8, 115, 105, 122, 101, 61],
            wanted.len() == 6,
            forall|j: int| from <= j < i ==> #[trigger] archive@.subrange(j, j + 6) != wanted,
        decreases to - i,
    {
        if stands_there(archive, i, &name) {
            assert(archive@.subrange(i as int, i + 6) == wanted);
            return true;
        }
        i = i + 1;
    }
    false
}

/// How many numbers can be written in `n` octal digits.
spec fn eights(n: nat) -> nat
    decreases n,
{
    if n == 0 {
        1
    } else {
        8 * eights((n - 1) as nat)
    }
}

proof fn lemma_eights_grow(a: nat, b: nat)
    requires
        a <= b,
    ensures
        1 <= eights(a) <= eights(b),
    decreases b,
{
    if a < b {
        lemma_eights_grow(a, (b - 1) as nat);
    } else if a > 0 {
        lemma_eights_grow((a - 1) as nat, (b - 1) as nat);
    }
}

/// What is written in few octal digits is small.
proof fn lemma_octal_is_small(s: Seq<u8>)
    requires
        s.len() <= 12,
        forall|i: int| 0 <= i < s.len() ==> octal_digit(#[trigger] s[i]),
    ensures
        in_octal(s) < eights(s.len()) <= 0x10_0000_0000,
    decreases s.len(),
{
    if s.len() > 0 {
        assert(octal_digit(s.last()));
        assert forall|i: int| 0 <= i < s.drop_last().len() implies octal_digit(
            #[trigger] s.drop_last()[i],
        ) by {
            assert(octal_digit(s[i]));
        }
        lemma_octal_is_small(s.drop_last());
    }
    lemma_eights_grow(s.len(), 12);
    assert(eights(12) == 0x10_0000_0000) by {
        reveal_with_fuel(eights, 13);
    }
}

fn read_size_digits(archive: &Vec<u8>, at: usize) -> (r: Vec<u8>)
    requires
        has_block(archive@, at as int),
    ensures
        r@ == size_digits(archive@, at as int),
        r@.len() <= 12,
{
    assert(archive.len() == archive@.len());
    let ghost field = archive@.subrange(at + 124, at + 136);
    let mut out: Vec<u8> = Vec::new();
    let mut i: usize = 0;
    assert(field.skip(0) =~= field);
    while i < 12
        invariant
            archive@.len() <= usize::MAX,
            has_block(archive@, at as int),
            field == archive@.subrange(at + 124, at + 136),
            i <= 12,
            out@.len() == i,
            before_zero(field) == out@ + before_zero(field.skip(i as int)),
        decreases 12 - i,
    {
        let b: u8 = archive[at + 124 + i];
        assert(field.skip(i as int)[0] == b);
        if b == 0 {
            assert(before_zero(field) =~= out@);
            return out;
        }
        assert(field.skip(i as int).skip(1) =~= field.skip(i + 1));
        out.push(b);
        i = i + 1;
        assert(before_zero(field) =~= out@ + before_zero(field.skip(i as int)));
    }
    assert(before_zero(field) =~= out@);
    out
}

fn look_for_odd(s: &Vec<u8>) -> (r: bool)
    ensures
        r == exists|i: int| 0 <= i < s@.len() && (#[trigger] s@[i]) >= 128,
{
    let mut i: usize = 0;
    while i < s.len()
        invariant
            i <= s@.len(),
            forall|j: int| 0 <= j < i ==> (#[trigger] s@[j]) < 128,
        decreases s@.len() - i,
    {
        if s[i] >= 128 {
            return true;
        }
        i = i + 1;
    }
    false
}

fn is_blank(b: u8) -> (r: bool)
    ensures
        r == blank(b),
{
    (9 <= b && b <= 13) || b == 32
}

fn read_octal(s: &Vec<u8>) -> (r: Option<u64>)
    requires
        s@.len() <= 12,
    ensures
        match r {
            Some(n) => octal_in(s@) == Some(n as nat),
            None => octal_in(s@) is None,
        },
{
    let mut hi: usize = s.len();
    assert(s@.take(hi as int) =~= s@);
    while hi > 0 && is_blank(s[hi - 1])
        invariant
            hi <= s@.len(),
            upto_blanks(s@) == upto_blanks(s@.take(hi as int)),
        decreases hi,
    {
        assert(s@.take(hi as int).drop_last() =~= s@.take(hi - 1));
        hi = hi - 1;
    }
    let ghost t = s@.take(hi as int);
    assert(upto_blanks(s@) == t);
    let mut lo: usize = 0;
    assert(t.skip(0) =~= t);
    while lo < hi && is_blank(s[lo])
        invariant
            lo <= hi <= s@.len(),
            t == s@.take(hi as int),
            past_blanks(t) == past_blanks(t.skip(lo as int)),
        decreases hi - lo,
    {
        assert(t.skip(lo as int)[0] == s@[lo as int]);
        assert(t.skip(lo as int).skip(1) =~= t.skip(lo + 1));
        lo = lo + 1;
    }
    assert(lo < hi ==> t.skip(lo as int)[0] == s@[lo as int]);
    assert(past_blanks(t) == t.skip(lo as int));
    if lo < hi && s[lo] == 43 {
        assert(t.skip(lo as int).skip(1) =~= t.skip(lo + 1));
        lo = lo + 1;
    }
    let ghost d = t.skip(lo as int);
    assert(d == past_plus(past_blanks(upto_blanks(s@))));
    if lo == hi {
        return None;
    }
    let mut v: u64 = 0;
    let mut i: usize = lo;
    assert(d.take(0) =~= Seq::<u8>::empty());
    while i < hi
        invariant
            lo <= i <= hi <= s@.len() <= 12,
            d == s@.take(hi as int).skip(lo as int),
            d == past_plus(past_blanks(upto_blanks(s@))),
            forall|j: int| 0 <= j < i - lo ==> octal_digit(#[trigger] d[j]),
            v == in_octal(d.take(i - lo)),
        decreases hi - i,
    {
        let b: u8 = s[i];
        assert(d[i - lo] == b);
        if b < 48 || b > 55 {
            assert(!octal_digit(d[i - lo]));
            return None;
        }
        proof {
            lemma_octal_is_small(d.take(i - lo));
            assert(d.take(i + 1 - lo).drop_last() =~= d.take(i - lo));
            assert(d.take(i + 1 - lo).last() == b);
        }
        v = v * 8 + (b - 48) as u64;
        i = i + 1;
    }
    assert(d.take(i - lo) =~= d);
    Some(v)
}

fn read_bits(archive: &Vec<u8>, at: usize) -> (r: u64)
    requires
        has_block(archive@, at as int),
    ensures
        r == in_bits(archive@.subrange(at + 128, at + 136)),
{
    assert(archive.len() == archive@.len());
    let ghost field = archive@.subrange(at + 128, at + 136);
    let mut v: u64 = 0;
    let mut i: usize = 0;
    assert(field.take(0) =~= Seq::<u8>::empty());
    while i < 8
        invariant
            archive@.len() <= usize::MAX,
            has_block(archive@, at as int),
            field == archive@.subrange(at + 128, at + 136),
            i <= 8,
            v == in_bits(field.take(i as int)),
            i <= 0 ==> v < 0x1,
            i <= 1 ==> v < 0x100,
            i <= 2 ==> v < 0x1_0000,
            i <= 3 ==> v < 0x100_0000,
            i <= 4 ==> v < 0x1_0000_0000,
            i <= 5 ==> v < 0x100_0000_0000,
            i <= 6 ==> v < 0x1_0000_0000_0000,
            i <= 7 ==> v < 0x100_0000_0000_0000,
        decreases 8 - i,
    {
        let b: u8 = archive[at + 128 + i];
        assert(field.take(i + 1).drop_last() =~= field.take(i as int));
        assert(field.take(i + 1).last() == b);
        v = v * 256 + b as u64;
        i = i + 1;
    }
    assert(field.take(8) =~= field);
    v
}

/// Whether the place behind the first file of an archive may lie further than can be counted.
pub fn goes_out_of_bounds(archive: &Vec<u8>) -> (r: bool)
    ensures
        r == out_of_bounds(archive@),
{
    let n: usize = archive.len();
    let mut at: usize = 0;
    let mut sized: bool = false;
    while n - at >= 512
        invariant
            n == archive@.len(),
            at <= n,
            out_of_bounds(archive@) == out_of_bounds_from(archive@, at as int, sized),
        decreases n - at,
    {
        if !look_for_description(archive, at) {
            return archive[at + 156] == 83 && archive[at + 482] == 1 && look_for_gnu(archive, at)
                && (archive[at + 124] >= 128 || sized);
        }
        let size: u64 = if archive[at + 124] >= 128 {
            read_bits(archive, at)
        } else {
            let digits = read_size_digits(archive, at);
            if look_for_odd(&digits) {
                return true;
            }
            match read_octal(&digits) {
                Some(v) => v,
                None => return false,
            }
        };
        assert(size_at(archive@, at as int) == Some(size as nat));
        proof {
            reveal_with_fuel(out_of_bounds_from, 2);
        }
        let room: usize = n - at - 512;
        if size > room as u64 {
            return false;
        }
        let len: usize = size as usize;
        let pad: usize = (512 - len % 512) % 512;
        assert(in_blocks(size as nat) == len + pad);
        if pad > room - len {
            return false;
        }
        if archive[at + 156] == 120 && look_for_size_name(archive, at + 512, at + 512 + len) {
            sized = true;
        }
        at = at + 512 + len + pad;
    }
    false
}

// ---------------------------------------------------------------------------
// Laws
// ---------------------------------------------------------------------------

/// A further octal digit makes eight times the number and the digit, a further byte two hundred and
/// fifty-six times the number and the byte.
pub proof fn law_digits_count_by_eights(s: Seq<u8>, b: u8)
    ensures
        48 <= b <= 55 ==> in_octal(s.push(b)) == 8 * in_octal(s) + (b - 48),
        in_bits(s.push(b)) == 256 * in_bits(s) + b,
        in_octal(Seq::empty()) == 0 && in_bits(Seq::empty()) == 0,
{
    assert(s.push(b).drop_last() =~= s);
}

/// A number in octal digits is read, with a blank behind it or without.
pub proof fn law_octal_numbers_are_read(d: Seq<u8>)
    requires
        d.len() > 0,
        forall|i: int| 0 <= i < d.len() ==> 48 <= #[trigger] d[i] <= 55,
    ensures
        octal_in(d) == Some(in_octal(d)),
        octal_in(d.push(32)) == Some(in_octal(d)),
        octal_in(Seq::empty()) is None,
{
    assert(48 <= d[d.len() - 1] <= 55 && 48 <= d[0] <= 55);
    assert(!blank(d.last()) && !blank(d[0]));
    assert(upto_blanks(d) == d && past_blanks(d) == d && past_plus(d) == d);
    assert(d.push(32).drop_last() =~= d);
    assert(upto_blanks(d.push(32)) == d);
}

/// A size in whole blocks holds the size, is made of blocks of five hundred and twelve bytes, and has
/// less than one to spare.
pub proof fn law_sizes_fill_blocks(n: nat)
    ensures
        n <= in_blocks(n) < n + 512,
        in_blocks(n) % 512 == 0,
{
}

/// Only a file whose list of holes goes on can be out of bounds, and it is where its size is in bits or
/// was among its attributes; an archive without a whole block is in bounds.
pub proof fn law_only_files_with_holes_are_out_of_bounds(archive: Seq<u8>, at: int, sized: bool)
    ensures
        !(0 <= at && at + 512 <= archive.len()) ==> !out_of_bounds_from(archive, at, sized),
        has_block(archive, at) && !is_description(archive, at) ==> (out_of_bounds_from(
            archive,
            at,
            sized,
        ) <==> archive[at + 156] == 83 && archive[at + 482] == 1 && is_gnu(archive, at) && (archive[at
            + 124] >= 128 || sized)),
{
}

/// What describes a file is passed by, with its size in whole blocks.
pub proof fn law_descriptions_are_passed_by(archive: Seq<u8>, at: int, sized: bool, n: nat)
    requires
        has_block(archive, at),
        is_description(archive, at),
        !size_is_odd(archive, at),
        size_at(archive, at) == Some(n),
        !is_attributes(archive, at) || !names_size(archive, at + 512, at + 512 + n),
    ensures
        out_of_bounds_from(archive, at, sized) == out_of_bounds_from(
            archive,
            at + 512 + in_blocks(n),
            sized,
        ),
{
}

/// Only long names, long links and lists of attributes describe a file.
pub proof fn law_kinds_of_descriptions(archive: Seq<u8>, at: int)
    ensures
        is_description(archive, at) ==> archive[at + 156] == 'L' as u8 || archive[at + 156]
            == 'K' as u8 || archive[at + 156] == 'x' as u8,
        is_attributes(archive, at) <==> archive[at + 156] == 'x' as u8,
        holes_go_on(archive, at) ==> archive[at + 156] == 'S' as u8 && !is_description(archive, at),
{
}

} // verus!
