//! Strings as sequences of characters: searching, splitting, trimming, joining.

use vstd::prelude::*;

verus! {

/// `String::push` of std appends one character at the end.
pub assume_specification[ String::push ](s: &mut String, c: char)
    ensures
        final(s)@ == old(s)@.push(c),
;

// ---------------------------------------------------------------------------
// Models
// ---------------------------------------------------------------------------

/// The texts held by a sequence of strings.
pub open spec fn views(v: Seq<String>) -> Seq<Seq<char>> {
    Seq::new(v.len(), |i: int| v[i]@)
}

/// The text of an optional string.
pub open spec fn opt_view(o: Option<String>) -> Option<Seq<char>> {
    match o {
        Some(s) => Some(s@),
        None => None,
    }
}

/// Whether a character has the Unicode property `White_Space`.
pub open spec fn white(c: char) -> bool {
    ||| 0x9 <= c as u32 <= 0xd
    ||| c as u32 == 0x20
    ||| c as u32 == 0x85
    ||| c as u32 == 0xa0
    ||| c as u32 == 0x1680
    ||| 0x2000 <= c as u32 <= 0x200a
    ||| c as u32 == 0x2028
    ||| c as u32 == 0x2029
    ||| c as u32 == 0x202f
    ||| c as u32 == 0x205f
    ||| c as u32 == 0x3000
}

/// `s` without its leading white space.
pub open spec fn trimmed_start(s: Seq<char>) -> Seq<char>
    decreases s.len(),
{
    if s.len() > 0 && white(s[0]) {
        trimmed_start(s.skip(1))
    } else {
        s
    }
}

/// `s` without its trailing white space.
pub open spec fn trimmed_end(s: Seq<char>) -> Seq<char>
    decreases s.len(),
{
    if s.len() > 0 && white(s.last()) {
        trimmed_end(s.drop_last())
    } else {
        s
    }
}

/// `s` without white space at either end.
pub open spec fn trimmed(s: Seq<char>) -> Seq<char> {
    trimmed_end(trimmed_start(s))
}

/// `s` without its leading characters `c`.
pub open spec fn stripped_start(s: Seq<char>, c: char) -> Seq<char>
    decreases s.len(),
{
    if s.len() > 0 && s[0] == c {
        stripped_start(s.skip(1), c)
    } else {
        s
    }
}

/// `s` without its trailing characters `c`.
pub open spec fn stripped_end(s: Seq<char>, c: char) -> Seq<char>
    decreases s.len(),
{
    if s.len() > 0 && s.last() == c {
        stripped_end(s.drop_last(), c)
    } else {
        s
    }
}

/// The index of the first `c` in `s`, or the length of `s` where there is none.
pub open spec fn index_of(s: Seq<char>, c: char) -> int
    decreases s.len(),
{
    if s.len() == 0 || s[0] == c {
        0
    } else {
        1 + index_of(s.skip(1), c)
    }
}

/// The index of the last `c` in `s`, or -1 where there is none.
pub open spec fn last_index_of(s: Seq<char>, c: char) -> int
    decreases s.len(),
{
    if s.len() == 0 {
        -1
    } else if s.last() == c {
        s.len() - 1
    } else {
        last_index_of(s.drop_last(), c)
    }
}

/// The pieces of `s` between the separators `c`: one more than there are separators.
pub open spec fn pieces(s: Seq<char>, c: char) -> Seq<Seq<char>>
    decreases s.len(),
{
    if s.len() == 0 {
        seq![Seq::empty()]
    } else {
        let before = pieces(s.drop_last(), c);
        if s.last() == c {
            before.push(Seq::empty())
        } else {
            before.drop_last().push(before.last().push(s.last()))
        }
    }
}

/// The maximal runs of characters other than white space, in order.
pub open spec fn words(s: Seq<char>) -> Seq<Seq<char>>
    decreases s.len(),
{
    if s.len() == 0 {
        Seq::empty()
    } else {
        let before = words(s.drop_last());
        if white(s.last()) {
            before
        } else if s.len() >= 2 && !white(s[s.len() - 2]) {
            before.drop_last().push(before.last().push(s.last()))
        } else {
            before.push(seq![s.last()])
        }
    }
}

/// A line without the carriage return that may end it.
pub open spec fn without_return(s: Seq<char>) -> Seq<char> {
    if s.len() > 0 && s.last() == '\r' {
        s.drop_last()
    } else {
        s
    }
}

/// The lines of `s`: each ends with a line feed, which may follow a carriage return;
/// the last one may lack its line feed, and is then left as it stands.
pub open spec fn lines(s: Seq<char>) -> Seq<Seq<char>> {
    let parts = pieces(s, '\n');
    let ended = Seq::new(
        (parts.len() - 1) as nat,
        |i: int| without_return(parts[i]),
    );
    if parts.last().len() == 0 {
        ended
    } else {
        ended.push(parts.last())
    }
}

/// The texts of `parts` one after another, with `sep` between neighbours.
pub open spec fn joined(parts: Seq<Seq<char>>, sep: Seq<char>) -> Seq<char>
    decreases parts.len(),
{
    if parts.len() == 0 {
        Seq::empty()
    } else if parts.len() == 1 {
        parts[0]
    } else {
        joined(parts.drop_last(), sep) + sep + parts.last()
    }
}

/// The known texts, then the others of `items` in order, each once.
pub open spec fn joined_once(known: Seq<Seq<char>>, items: Seq<Seq<char>>) -> Seq<Seq<char>>
    decreases items.len(),
{
    if items.len() == 0 {
        known
    } else {
        with_text(joined_once(known, items.drop_last()), items.last())
    }
}

/// The texts with `x` behind them, unless they hold it.
pub open spec fn with_text(s: Seq<Seq<char>>, x: Seq<char>) -> Seq<Seq<char>> {
    if s.contains(x) {
        s
    } else {
        s.push(x)
    }
}

/// Whether `pat` stands in `s` at index `i`.
pub open spec fn occurs_at(s: Seq<char>, pat: Seq<char>, i: int) -> bool {
    0 <= i && i + pat.len() <= s.len() && s.subrange(i, i + pat.len()) == pat
}

/// Whether `pat` stands anywhere in `s`.
pub open spec fn has_sub(s: Seq<char>, pat: Seq<char>) -> bool {
    exists|i: int| #[trigger] occurs_at(s, pat, i)
}

/// The least index at or after `from` at which `pat` stands in `s`.
pub open spec fn sub_index_from(s: Seq<char>, pat: Seq<char>, from: int) -> Option<int>
    decreases s.len() + 1 - from,
{
    if from < 0 || from + pat.len() > s.len() {
        None
    } else if occurs_at(s, pat, from) {
        Some(from)
    } else {
        sub_index_from(s, pat, from + 1)
    }
}

/// The least index at which `pat` stands in `s`.
pub open spec fn sub_index(s: Seq<char>, pat: Seq<char>) -> Option<int> {
    sub_index_from(s, pat, 0)
}

/// Whether `s` begins with `pat`.
pub open spec fn begins(s: Seq<char>, pat: Seq<char>) -> bool {
    occurs_at(s, pat, 0)
}

/// Whether `s` ends with `pat`.
pub open spec fn ends(s: Seq<char>, pat: Seq<char>) -> bool {
    occurs_at(s, pat, s.len() - pat.len())
}

/// `s` from index `from` on, each occurrence of `pat` replaced by `to`, left to right.
pub open spec fn replaced_from(s: Seq<char>, pat: Seq<char>, to: Seq<char>, from: int) -> Seq<char>
    decreases s.len() - from,
{
    if from < 0 || from >= s.len() || pat.len() == 0 {
        Seq::empty()
    } else if occurs_at(s, pat, from) {
        to + replaced_from(s, pat, to, from + pat.len())
    } else {
        seq![s[from]] + replaced_from(s, pat, to, from + 1)
    }
}

/// `s` with each occurrence of the non-empty `pat` replaced by `to`, left to right.
pub open spec fn replaced(s: Seq<char>, pat: Seq<char>, to: Seq<char>) -> Seq<char> {
    replaced_from(s, pat, to, 0)
}

/// `n` copies of `c`.
pub open spec fn repeated(c: char, n: nat) -> Seq<char> {
    Seq::new(n, |i: int| c)
}

/// `s` followed by spaces up to a width of `n` characters.
pub open spec fn padded(s: Seq<char>, n: nat) -> Seq<char> {
    if s.len() >= n {
        s
    } else {
        s + repeated(' ', (n - s.len()) as nat)
    }
}

/// `s` behind spaces, up to a width of `n` characters.
pub open spec fn padded_left(s: Seq<char>, n: nat) -> Seq<char> {
    if s.len() >= n {
        s
    } else {
        repeated(' ', (n - s.len()) as nat) + s
    }
}

/// The lower-case counterpart of an ASCII letter; any other character itself.
pub open spec fn ascii_lower(c: char) -> char {
    if 'A' <= c && c <= 'Z' {
        ((c as u8) + 32) as char
    } else {
        c
    }
}

/// `s` with each ASCII letter in lower case.
pub open spec fn lowered(s: Seq<char>) -> Seq<char> {
    Seq::new(s.len(), |i: int| ascii_lower(s[i]))
}

/// The number of bytes that a character takes in UTF-8.
pub open spec fn utf8_len(c: char) -> nat {
    if (c as u32) < 0x80 {
        1
    } else if (c as u32) < 0x800 {
        2
    } else if (c as u32) < 0x10000 {
        3
    } else {
        4
    }
}

/// How many bytes a text takes.
pub open spec fn byte_len(s: Seq<char>) -> nat
    decreases s.len(),
{
    if s.len() == 0 {
        0
    } else {
        byte_len(s.drop_last()) + utf8_len(s.last())
    }
}

/// The characters that make up the first `n` bytes of `s`, where a character ends there.
pub open spec fn byte_prefix(s: Seq<char>, n: int) -> Option<Seq<char>>
    decreases s.len(),
{
    if n == 0 {
        Some(Seq::empty())
    } else if s.len() == 0 || n < 0 {
        None
    } else {
        match byte_prefix(s.skip(1), n - utf8_len(s[0])) {
            Some(t) => Some(seq![s[0]] + t),
            None => None,
        }
    }
}

/// Whether `a` comes strictly before `b` in the order of their code points.
pub open spec fn before(a: Seq<char>, b: Seq<char>) -> bool
    decreases a.len(),
{
    if b.len() == 0 {
        false
    } else if a.len() == 0 {
        true
    } else if a[0] == b[0] {
        before(a.skip(1), b.skip(1))
    } else {
        a[0] < b[0]
    }
}

// ---------------------------------------------------------------------------
// Conversions and comparison
// ---------------------------------------------------------------------------

/// The characters of a string.
pub fn chars_of(s: &str) -> (r: Vec<char>)
    ensures
        r@ == s@,
{
    let mut out: Vec<char> = Vec::new();
    for c in it: s.chars()
        invariant
            it.seq() == s@,
            out@ == s@.take(it.index() as int),
    {
        out.push(c);
        assert(s@.take(it.index() as int + 1) =~= s@.take(it.index() as int).push(c));
    }
    assert(s@.take(s@.len() as int) =~= s@);
    out
}

/// The string made of the characters `from..to` of `v`.
pub fn string_of_range(v: &Vec<char>, from: usize, to: usize) -> (r: String)
    requires
        from <= to <= v@.len(),
    ensures
        r@ == v@.subrange(from as int, to as int),
{
    let mut out = String::new();
    let mut i: usize = from;
    while i < to
        invariant
            from <= i <= to <= v@.len(),
            out@ == v@.subrange(from as int, i as int),
        decreases to - i,
    {
        out.push(v[i]);
        i = i + 1;
        assert(v@.subrange(from as int, i as int) =~= v@.subrange(from as int, i - 1).push(
            v@[i - 1],
        ));
    }
    out
}

/// Whether two strings hold the same text.
pub fn same(a: &str, b: &str) -> (r: bool)
    ensures
        r == (a@ == b@),
{
    a.to_owned() == b.to_owned()
}

/// Whether an optional string holds exactly `b`.
pub fn opt_is(a: &Option<String>, b: &str) -> (r: bool)
    ensures
        r == (opt_view(*a) == Some(b@)),
{
    match a {
        Some(s) => same(s.as_str(), b),
        None => false,
    }
}

/// A copy of an optional string.
pub fn opt_clone(a: &Option<String>) -> (r: Option<String>)
    ensures
        opt_view(r) == opt_view(*a),
        r == *a,
{
    match a {
        Some(s) => Some(s.clone()),
        None => None,
    }
}

/// Copies of all strings of a vector.
pub fn clone_all(v: &Vec<String>) -> (r: Vec<String>)
    ensures
        views(r@) == views(v@),
        r@ =~= v@,
{
    let mut out: Vec<String> = Vec::new();
    let mut i: usize = 0;
    while i < v.len()
        invariant
            i <= v@.len(),
            out@ =~= v@.take(i as int),
        decreases v@.len() - i,
    {
        out.push(v[i].clone());
        i = i + 1;
    }
    assert(out@ =~= v@);
    out
}

/// The texts of a vector grow with it.
pub proof fn lemma_views_push(v: Seq<String>, s: String)
    ensures
        views(v.push(s)) == views(v).push(s@),
{
    assert(views(v.push(s)) =~= views(v).push(s@));
}

/// The texts of a longer head of a vector.
pub proof fn lemma_views_take(v: Seq<String>, i: int)
    requires
        0 <= i < v.len(),
    ensures
        views(v).take(i + 1) == views(v).take(i).push(v[i]@),
{
    assert(views(v).take(i + 1) =~= views(v).take(i).push(v[i]@));
}

/// Whether `v` holds the text `s`.
pub fn holds(v: &Vec<String>, s: &str) -> (r: bool)
    ensures
        r == views(v@).contains(s@),
{
    let mut i: usize = 0;
    while i < v.len()
        invariant
            i <= v@.len(),
            forall|j: int| 0 <= j < i ==> views(v@)[j] != s@,
        decreases v@.len() - i,
    {
        if same(v[i].as_str(), s) {
            assert(views(v@)[i as int] == s@);
            return true;
        }
        i = i + 1;
    }
    false
}

/// Whether all characters are ASCII.
pub open spec fn all_ascii(s: Seq<char>) -> bool {
    forall|i: int| 0 <= i < s.len() ==> #[trigger] s[i] <= '\x7f'
}

/// An ASCII letter in upper case; other characters as they are.
pub open spec fn ascii_upper(c: char) -> char {
    if 'a' <= c && c <= 'z' {
        ((c as u8) - 32) as char
    } else {
        c
    }
}

/// `s` with each ASCII letter in upper case.
pub open spec fn uppered(s: Seq<char>) -> Seq<char> {
    Seq::new(s.len(), |i: int| ascii_upper(s[i]))
}

/// What `str::to_lowercase` makes of a text.
pub uninterp spec fn lowercase(s: Seq<char>) -> Seq<char>;

/// What `str::to_uppercase` makes of a text.
pub uninterp spec fn uppercase(s: Seq<char>) -> Seq<char>;

/// What the `Debug` format makes of a list of texts.
pub uninterp spec fn debug_list(v: Seq<Seq<char>>) -> Seq<char>;

/// A text in lower case.
pub open spec fn in_lower(s: Seq<char>) -> Seq<char> {
    if all_ascii(s) {
        lowered(s)
    } else {
        lowercase(s)
    }
}

/// A text in upper case.
pub open spec fn in_upper(s: Seq<char>) -> Seq<char> {
    if all_ascii(s) {
        uppered(s)
    } else {
        uppercase(s)
    }
}

/// Whether a character is shown as it is between quotes: visible ASCII or a space, but neither a
/// quote nor a backslash.
pub open spec fn shown_as_is(c: char) -> bool {
    ' ' <= c && c <= '~' && c != '"' && c != '\\'
}

/// Whether all characters of all texts are shown as they are.
pub open spec fn all_shown_as_is(v: Seq<Seq<char>>) -> bool {
    forall|i: int, j: int|
        0 <= i < v.len() && 0 <= j < v[i].len() ==> shown_as_is(#[trigger] v[i][j])
}

/// Texts in quotes, with commas between them and brackets around them.
pub open spec fn quoted_list(v: Seq<Seq<char>>) -> Seq<char> {
    "["@ + joined(Seq::new(v.len(), |i: int| "\""@ + v[i] + "\""@), ", "@) + "]"@
}

/// A list of texts as it is shown to a programmer.
pub open spec fn shown_list(v: Seq<Seq<char>>) -> Seq<char> {
    if all_shown_as_is(v) {
        quoted_list(v)
    } else {
        debug_list(v)
    }
}

/// Calls `str::to_lowercase`. The result is a function of the text alone; of an ASCII text it is
/// the text with each letter in lower case.
#[verifier::external_body]
pub(crate) fn to_lowercase(s: &str) -> (r: String)
    ensures
        r@ == lowercase(s@),
        all_ascii(s@) ==> r@ == lowered(s@),
{
    s.to_lowercase()
}

/// Calls `str::to_uppercase`. The result is a function of the text alone; of an ASCII text it is
/// the text with each letter in upper case.
#[verifier::external_body]
pub(crate) fn to_uppercase(s: &str) -> (r: String)
    ensures
        r@ == uppercase(s@),
        all_ascii(s@) ==> r@ == uppered(s@),
{
    s.to_uppercase()
}

/// Formats a list of texts with `{:?}`. The result is a function of the texts alone; texts of
/// visible ASCII without quotes and backslashes stand in quotes as they are, with commas between
/// them, in brackets.
#[verifier::external_body]
pub(crate) fn debug_texts(v: &Vec<String>) -> (r: String)
    ensures
        r@ == debug_list(views(v@)),
        all_shown_as_is(views(v@)) ==> r@ == quoted_list(views(v@)),
{
    format!("{:?}", v)
}

/// The texts of an optional list.
pub open spec fn opt_views(o: Option<Vec<String>>) -> Option<Seq<Seq<char>>> {
    match o {
        Some(v) => Some(views(v@)),
        None => None,
    }
}

/// Appends a text to a list.
pub fn push_text(v: &mut Vec<String>, s: &str)
    ensures
        views(final(v)@) == views(old(v)@).push(s@),
{
    let t = s.to_owned();
    proof {
        lemma_views_push(v@, t);
    }
    v.push(t);
}

/// The empty list of texts.
pub fn no_texts() -> (r: Vec<String>)
    ensures
        views(r@) == Seq::<Seq<char>>::empty(),
        r@.len() == 0,
{
    let r: Vec<String> = Vec::new();
    assert(views(r@) =~= Seq::<Seq<char>>::empty());
    r
}

/// Adds a text behind the others, unless it is there.
pub fn add_once(v: &mut Vec<String>, s: &str)
    ensures
        views(final(v)@) == with_text(views(old(v)@), s@),
{
    if !holds(v, s) {
        let t = s.to_owned();
        proof {
            lemma_views_push(v@, t);
        }
        v.push(t);
    }
}

/// A string of one character.
pub fn string_of_char(c: char) -> (r: String)
    ensures
        r@ == seq![c],
{
    let mut s = String::new();
    s.push(c);
    assert(s@ =~= seq![c]);
    s
}

// ---------------------------------------------------------------------------
// Trimming
// ---------------------------------------------------------------------------

/// Whether a character has the Unicode property `White_Space`.
pub fn is_white(c: char) -> (r: bool)
    ensures
        r == white(c),
{
    let n: u32 = c as u32;
    (0x9 <= n && n <= 0xd) || n == 0x20 || n == 0x85 || n == 0xa0 || n == 0x1680 || (0x2000 <= n
        && n <= 0x200a) || n == 0x2028 || n == 0x2029 || n == 0x202f || n == 0x205f || n == 0x3000
}

/// `s` without its leading white space.
pub fn trim_start(s: &str) -> (r: String)
    ensures
        r@ == trimmed_start(s@),
{
    let v = chars_of(s);
    let mut i: usize = 0;
    assert(v@.skip(0) =~= v@);
    while i < v.len() && is_white(v[i])
        invariant
            i <= v@.len(),
            trimmed_start(v@) == trimmed_start(v@.skip(i as int)),
        decreases v@.len() - i,
    {
        assert(v@.skip(i as int).skip(1) =~= v@.skip(i + 1));
        i = i + 1;
    }
    assert(v@.subrange(i as int, v@.len() as int) =~= v@.skip(i as int));
    string_of_range(&v, i, v.len())
}

/// `s` without its trailing white space.
pub fn trim_end(s: &str) -> (r: String)
    ensures
        r@ == trimmed_end(s@),
{
    let v = chars_of(s);
    let mut i: usize = v.len();
    assert(v@.take(i as int) =~= v@);
    while i > 0 && is_white(v[i - 1])
        invariant
            i <= v@.len(),
            trimmed_end(v@) == trimmed_end(v@.take(i as int)),
        decreases i,
    {
        assert(v@.take(i as int).drop_last() =~= v@.take(i - 1));
        i = i - 1;
    }
    assert(v@.subrange(0, i as int) =~= v@.take(i as int));
    string_of_range(&v, 0, i)
}

/// `s` without white space at either end.
pub fn trim(s: &str) -> (r: String)
    ensures
        r@ == trimmed(s@),
{
    let t = trim_start(s);
    trim_end(t.as_str())
}

/// `s` without its leading characters `c`.
pub fn strip_start(s: &str, c: char) -> (r: String)
    ensures
        r@ == stripped_start(s@, c),
{
    let v = chars_of(s);
    let mut i: usize = 0;
    assert(v@.skip(0) =~= v@);
    while i < v.len() && v[i] == c
        invariant
            i <= v@.len(),
            stripped_start(v@, c) == stripped_start(v@.skip(i as int), c),
        decreases v@.len() - i,
    {
        assert(v@.skip(i as int).skip(1) =~= v@.skip(i + 1));
        i = i + 1;
    }
    assert(v@.subrange(i as int, v@.len() as int) =~= v@.skip(i as int));
    string_of_range(&v, i, v.len())
}

/// `s` without its trailing characters `c`.
pub fn strip_end(s: &str, c: char) -> (r: String)
    ensures
        r@ == stripped_end(s@, c),
{
    let v = chars_of(s);
    let mut i: usize = v.len();
    assert(v@.take(i as int) =~= v@);
    while i > 0 && v[i - 1] == c
        invariant
            i <= v@.len(),
            stripped_end(v@, c) == stripped_end(v@.take(i as int), c),
        decreases i,
    {
        assert(v@.take(i as int).drop_last() =~= v@.take(i - 1));
        i = i - 1;
    }
    assert(v@.subrange(0, i as int) =~= v@.take(i as int));
    string_of_range(&v, 0, i)
}

// ---------------------------------------------------------------------------
// Searching
// ---------------------------------------------------------------------------

/// Where `index_of` points.
pub proof fn lemma_index_of(s: Seq<char>, c: char)
    ensures
        0 <= index_of(s, c) <= s.len(),
        forall|j: int| 0 <= j < index_of(s, c) ==> s[j] != c,
        index_of(s, c) < s.len() ==> s[index_of(s, c)] == c,
    decreases s.len(),
{
    if s.len() > 0 && s[0] != c {
        let t = s.skip(1);
        lemma_index_of(t, c);
        assert forall|j: int| 0 <= j < index_of(s, c) implies s[j] != c by {
            if j > 0 {
                assert(t[j - 1] == s[j]);
            }
        }
    }
}

/// The index at which the first `c` stands is `index_of`.
pub proof fn lemma_index_of_is(s: Seq<char>, c: char, k: int)
    requires
        0 <= k <= s.len(),
        forall|j: int| 0 <= j < k ==> s[j] != c,
        k < s.len() ==> s[k] == c,
    ensures
        index_of(s, c) == k,
{
    lemma_index_of(s, c);
}

/// Where `last_index_of` points.
pub proof fn lemma_last_index_of(s: Seq<char>, c: char)
    ensures
        -1 <= last_index_of(s, c) < s.len(),
        forall|j: int| last_index_of(s, c) < j < s.len() ==> s[j] != c,
        last_index_of(s, c) >= 0 ==> s[last_index_of(s, c)] == c,
    decreases s.len(),
{
    if s.len() > 0 && s.last() != c {
        lemma_last_index_of(s.drop_last(), c);
        assert forall|j: int| last_index_of(s, c) < j < s.len() implies s[j] != c by {
            if j < s.len() - 1 {
                assert(s.drop_last()[j] == s[j]);
            }
        }
    }
}

/// The index of the first `c`, or the length where there is none.
pub fn find_char(v: &Vec<char>, c: char) -> (r: usize)
    ensures
        r == index_of(v@, c),
{
    let mut i: usize = 0;
    while i < v.len()
        invariant
            i <= v@.len(),
            forall|j: int| 0 <= j < i ==> v@[j] != c,
        decreases v@.len() - i,
    {
        if v[i] == c {
            proof {
                lemma_index_of_is(v@, c, i as int);
            }
            return i;
        }
        i = i + 1;
    }
    proof {
        lemma_index_of_is(v@, c, i as int);
    }
    i
}

/// The index of the last `c`, where there is one.
pub fn rfind_char(v: &Vec<char>, c: char) -> (r: Option<usize>)
    ensures
        match r {
            Some(i) => i == last_index_of(v@, c),
            None => last_index_of(v@, c) == -1,
        },
{
    let mut i: usize = v.len();
    proof {
        lemma_last_index_of(v@, c);
    }
    while i > 0
        invariant
            i <= v@.len(),
            forall|j: int| i <= j < v@.len() ==> v@[j] != c,
            -1 <= last_index_of(v@, c) < v@.len(),
            forall|j: int| last_index_of(v@, c) < j < v@.len() ==> v@[j] != c,
            last_index_of(v@, c) >= 0 ==> v@[last_index_of(v@, c)] == c,
        decreases i,
    {
        if v[i - 1] == c {
            return Some(i - 1);
        }
        i = i - 1;
    }
    None
}

/// Whether the character `c` stands anywhere in `s`.
pub fn contains_char(s: &str, c: char) -> (r: bool)
    ensures
        r == s@.contains(c),
{
    let v = chars_of(s);
    let i: usize = find_char(&v, c);
    proof {
        lemma_index_of(v@, c);
    }
    i < v.len()
}

/// Whether `pat` stands in `v` at index `i`.
pub fn stands_at(v: &Vec<char>, pat: &Vec<char>, i: usize) -> (r: bool)
    ensures
        r == occurs_at(v@, pat@, i as int),
{
    let n: usize = v.len();
    if n < pat.len() || n - pat.len() < i {
        return false;
    }
    let mut j: usize = 0;
    while j < pat.len()
        invariant
            n == v@.len(),
            i + pat@.len() <= n,
            j <= pat@.len(),
            forall|k: int| 0 <= k < j ==> v@[i + k] == pat@[k],
        decreases pat@.len() - j,
    {
        if v[i + j] != pat[j] {
            assert(v@.subrange(i as int, i + pat@.len())[j as int] == v@[i + j]);
            return false;
        }
        j = j + 1;
    }
    assert(v@.subrange(i as int, i + pat@.len()) =~= pat@);
    true
}

/// What `sub_index_from` finds.
pub proof fn lemma_sub_index_from(s: Seq<char>, pat: Seq<char>, from: int)
    requires
        0 <= from,
    ensures
        match sub_index_from(s, pat, from) {
            Some(i) => from <= i && occurs_at(s, pat, i) && forall|j: int|
                from <= j < i ==> !occurs_at(s, pat, j),
            None => forall|j: int| from <= j ==> !occurs_at(s, pat, j),
        },
    decreases s.len() + 1 - from,
{
    if from + pat.len() <= s.len() && !occurs_at(s, pat, from) {
        lemma_sub_index_from(s, pat, from + 1);
    }
}

/// A text stands in another exactly where a first index is found.
pub proof fn lemma_has_sub(s: Seq<char>, pat: Seq<char>)
    ensures
        has_sub(s, pat) == (sub_index(s, pat) is Some),
{
    lemma_sub_index_from(s, pat, 0);
    if has_sub(s, pat) {
        let i = choose|i: int| #[trigger] occurs_at(s, pat, i);
        assert(occurs_at(s, pat, i));
    }
}

/// The least index at or after `from` at which `pat` stands in `v`.
pub fn find_from(v: &Vec<char>, pat: &Vec<char>, from: usize) -> (r: Option<usize>)
    ensures
        match r {
            Some(i) => sub_index_from(v@, pat@, from as int) == Some(i as int),
            None => sub_index_from(v@, pat@, from as int) is None,
        },
{
    let mut i: usize = from;
    while i <= v.len() && v.len() - i >= pat.len()
        invariant
            from <= i,
            i <= v@.len() + 1 || i == from,
            sub_index_from(v@, pat@, from as int) == sub_index_from(v@, pat@, i as int),
        decreases v@.len() + 1 - i,
    {
        if stands_at(v, pat, i) {
            return Some(i);
        }
        if i == v.len() {
            assert(v@.subrange(i as int, i as int) =~= pat@);
            return None;
        }
        i = i + 1;
    }
    None
}

/// Whether `pat` stands anywhere in `s`.
pub fn contains(s: &str, pat: &str) -> (r: bool)
    ensures
        r == has_sub(s@, pat@),
{
    proof {
        lemma_has_sub(s@, pat@);
    }
    find_from(&chars_of(s), &chars_of(pat), 0).is_some()
}

/// Whether `s` begins with `pat`.
pub fn starts_with(s: &str, pat: &str) -> (r: bool)
    ensures
        r == begins(s@, pat@),
{
    stands_at(&chars_of(s), &chars_of(pat), 0)
}

/// Whether `s` ends with `pat`.
pub fn ends_with(s: &str, pat: &str) -> (r: bool)
    ensures
        r == ends(s@, pat@),
{
    let v = chars_of(s);
    let p = chars_of(pat);
    if v.len() < p.len() {
        false
    } else {
        stands_at(&v, &p, v.len() - p.len())
    }
}

/// What follows the prefix `pat` of `s`, where `s` begins with it.
pub fn strip_prefix(s: &str, pat: &str) -> (r: Option<String>)
    ensures
        opt_view(r) == if begins(s@, pat@) {
            Some(s@.skip(pat@.len() as int))
        } else {
            None
        },
{
    let v = chars_of(s);
    let p = chars_of(pat);
    if stands_at(&v, &p, 0) {
        assert(v@.subrange(p@.len() as int, v@.len() as int) =~= v@.skip(p@.len() as int));
        Some(string_of_range(&v, p.len(), v.len()))
    } else {
        None
    }
}

// ---------------------------------------------------------------------------
// Splitting and joining
// ---------------------------------------------------------------------------

/// There is always a piece.
pub proof fn lemma_pieces_nonempty(s: Seq<char>, c: char)
    ensures
        pieces(s, c).len() >= 1,
    decreases s.len(),
{
    if s.len() > 0 {
        lemma_pieces_nonempty(s.drop_last(), c);
    }
}

/// No piece holds the separator.
pub proof fn lemma_pieces_clean(s: Seq<char>, c: char)
    ensures
        forall|i: int| 0 <= i < pieces(s, c).len() ==> !(#[trigger] pieces(s, c)[i]).contains(c),
    decreases s.len(),
{
    if s.len() > 0 {
        let b = pieces(s.drop_last(), c);
        lemma_pieces_nonempty(s.drop_last(), c);
        lemma_pieces_clean(s.drop_last(), c);
        assert forall|i: int| 0 <= i < pieces(s, c).len() implies !(
        #[trigger] pieces(s, c)[i]).contains(c) by {
            if s.last() == c {
                if i < b.len() {
                    assert(pieces(s, c)[i] == b[i]);
                }
            } else if i < b.len() - 1 {
                assert(pieces(s, c)[i] == b[i]);
            } else {
                let p = b.last().push(s.last());
                assert(pieces(s, c)[i] == p);
                if p.contains(c) {
                    let k = choose|k: int| 0 <= k < p.len() && p[k] == c;
                    assert(b.last()[k] == c);
                    assert(b[b.len() - 1].contains(c));
                }
            }
        }
    }
}

/// Joining the pieces with the separator gives the text back.
pub proof fn law_joined_pieces_give_the_text(s: Seq<char>, c: char)
    ensures
        joined(pieces(s, c), seq![c]) == s,
    decreases s.len(),
{
    if s.len() == 0 {
        assert(joined(pieces(s, c), seq![c]) =~= s);
    } else {
        let t = s.drop_last();
        let b = pieces(t, c);
        lemma_pieces_nonempty(t, c);
        law_joined_pieces_give_the_text(t, c);
        assert(s =~= t.push(s.last()));
        if s.last() == c {
            let p = b.push(Seq::<char>::empty());
            assert(p.drop_last() =~= b);
            assert(p.last() =~= Seq::<char>::empty());
            assert(joined(p, seq![c]) =~= joined(b, seq![c]) + seq![c] + Seq::<char>::empty());
            assert(joined(p, seq![c]) =~= s);
        } else {
            let p = b.drop_last().push(b.last().push(s.last()));
            if b.len() == 1 {
                assert(joined(p, seq![c]) =~= s);
            } else {
                assert(p.drop_last() =~= b.drop_last());
                assert(joined(p, seq![c]) =~= joined(b, seq![c]).push(s.last()));
            }
        }
    }
}

/// A text without the separator is its only piece.
pub proof fn lemma_pieces_single(s: Seq<char>, c: char)
    requires
        !s.contains(c),
    ensures
        pieces(s, c) == seq![s],
    decreases s.len(),
{
    if s.len() == 0 {
        assert(s =~= Seq::<char>::empty());
        assert(pieces(s, c) =~= seq![s]);
    } else {
        let t = s.drop_last();
        assert forall|i: int| 0 <= i < t.len() implies t[i] != c by {
            assert(s[i] == t[i]);
        }
        assert(s.contains(s.last()));
        lemma_pieces_single(t, c);
        assert(t.push(s.last()) =~= s);
        assert(pieces(t, c).last() == t);
        assert(pieces(t, c).drop_last() =~= Seq::<Seq<char>>::empty());
        assert(pieces(s, c) =~= seq![s]);
    }
}

/// The pieces of a text that begins with a clean part and a separator.
pub proof fn lemma_pieces_head(a: Seq<char>, c: char, b: Seq<char>)
    requires
        !a.contains(c),
    ensures
        pieces(a.push(c) + b, c) == seq![a] + pieces(b, c),
    decreases b.len(),
{
    let s = a.push(c) + b;
    if b.len() == 0 {
        lemma_pieces_single(a, c);
        assert(s.drop_last() =~= a);
        assert(pieces(s, c) =~= seq![a] + pieces(b, c));
    } else {
        let t = b.drop_last();
        lemma_pieces_head(a, c, t);
        lemma_pieces_nonempty(t, c);
        assert(s.drop_last() =~= a.push(c) + t);
        assert(pieces(s, c) =~= seq![a] + pieces(b, c));
    }
}

/// A non-empty text without white space is its only word.
pub proof fn lemma_words_single(s: Seq<char>)
    requires
        s.len() > 0,
        forall|i: int| 0 <= i < s.len() ==> !white(#[trigger] s[i]),
    ensures
        words(s) == seq![s],
    decreases s.len(),
{
    let t = s.drop_last();
    if t.len() == 0 {
        assert(words(t) =~= Seq::<Seq<char>>::empty());
        assert(s =~= seq![s.last()]);
        assert(words(s) =~= seq![s]);
    } else {
        assert forall|i: int| 0 <= i < t.len() implies !white(#[trigger] t[i]) by {
            assert(s[i] == t[i]);
        }
        lemma_words_single(t);
        assert(!white(s[s.len() - 2]));
        assert(t.push(s.last()) =~= s);
        assert(words(t).last() == t);
        assert(words(t).drop_last() =~= Seq::<Seq<char>>::empty());
        assert(words(s) =~= seq![s]);
    }
}

/// White space between two texts separates their words.
pub proof fn lemma_words_concat(a: Seq<char>, b: Seq<char>)
    requires
        a.len() > 0,
        white(a.last()),
    ensures
        words(a + b) == words(a) + words(b),
    decreases b.len(),
{
    let s = a + b;
    if b.len() == 0 {
        assert(s =~= a);
        assert(words(a) + words(b) =~= words(a));
    } else {
        let t = b.drop_last();
        lemma_words_concat(a, t);
        assert(s.drop_last() =~= a + t);
        assert(s.last() == b.last());
        if b.len() >= 2 {
            assert(s[s.len() - 2] == b[b.len() - 2]);
            lemma_words_open(t);
        } else {
            assert(s[s.len() - 2] == a.last());
            assert(words(t) =~= Seq::<Seq<char>>::empty());
        }
        assert(words(s) =~= words(a) + words(b));
    }
}

/// A text that ends inside a word has a last word.
pub proof fn lemma_words_open(s: Seq<char>)
    ensures
        s.len() > 0 && !white(s.last()) ==> words(s).len() > 0,
    decreases s.len(),
{
    if s.len() > 0 {
        lemma_words_open(s.drop_last());
    }
}

/// A separator between two texts separates their pieces.
pub proof fn lemma_pieces_concat(a: Seq<char>, c: char, b: Seq<char>)
    ensures
        pieces(a.push(c) + b, c) == pieces(a, c) + pieces(b, c),
    decreases b.len(),
{
    let s = a.push(c) + b;
    if b.len() == 0 {
        assert(s.drop_last() =~= a);
        assert(pieces(s, c) =~= pieces(a, c) + pieces(b, c));
    } else {
        let t = b.drop_last();
        lemma_pieces_concat(a, c, t);
        lemma_pieces_nonempty(t, c);
        assert(s.drop_last() =~= a.push(c) + t);
        assert(pieces(s, c) =~= pieces(a, c) + pieces(b, c));
    }
}

/// Texts without the separator are the pieces of what they are joined to.
pub proof fn lemma_pieces_of_joined(parts: Seq<Seq<char>>, c: char)
    requires
        parts.len() > 0,
        forall|i: int| 0 <= i < parts.len() ==> !(#[trigger] parts[i]).contains(c),
    ensures
        pieces(joined(parts, seq![c]), c) == parts,
    decreases parts.len(),
{
    if parts.len() == 1 {
        assert(!parts[0].contains(c));
        lemma_pieces_single(parts[0], c);
        assert(pieces(joined(parts, seq![c]), c) =~= parts);
    } else {
        let d = parts.drop_last();
        assert forall|i: int| 0 <= i < d.len() implies !(#[trigger] d[i]).contains(c) by {
            assert(d[i] == parts[i]);
        }
        lemma_pieces_of_joined(d, c);
        assert(!parts[parts.len() - 1].contains(c));
        lemma_pieces_single(parts.last(), c);
        lemma_pieces_concat(joined(d, seq![c]), c, parts.last());
        assert(joined(parts, seq![c]) =~= joined(d, seq![c]).push(c) + parts.last());
        assert(pieces(joined(parts, seq![c]), c) =~= parts);
    }
}

/// The lines of a text that is made of whole lines and more.
pub proof fn lemma_lines_concat(a: Seq<char>, b: Seq<char>)
    requires
        a.len() > 0,
        a.last() == '\n',
    ensures
        lines(a + b) == lines(a) + lines(b),
{
    let d = a.drop_last();
    lemma_pieces_concat(d, '\n', b);
    lemma_pieces_concat(d, '\n', Seq::empty());
    lemma_pieces_nonempty(d, '\n');
    lemma_pieces_nonempty(b, '\n');
    assert(a =~= d.push('\n'));
    assert(d.push('\n') + Seq::<char>::empty() =~= a);
    assert(a + b =~= d.push('\n') + b);
    let p = pieces(d, '\n');
    let q = pieces(b, '\n');
    assert(pieces(a + b, '\n') == p + q);
    assert(pieces(a, '\n') =~= p.push(Seq::empty()));
    assert(pieces(a, '\n').last() == Seq::<char>::empty());
    assert((p + q).last() == q.last());
    assert(lines(a + b) =~= lines(a) + lines(b));
}

/// The lines of joined lines: those that were joined, but for carriage returns at their ends.
pub proof fn lemma_lines_of_joined(parts: Seq<Seq<char>>)
    requires
        parts.len() > 0,
        forall|i: int| 0 <= i < parts.len() ==> !(#[trigger] parts[i]).contains('\n'),
    ensures
        lines(joined(parts, seq!['\n']).push('\n')) == Seq::new(
            parts.len(),
            |i: int| without_return(parts[i]),
        ),
{
    let s = joined(parts, seq!['\n']);
    lemma_pieces_of_joined(parts, '\n');
    lemma_pieces_concat(s, '\n', Seq::empty());
    assert(s.push('\n') + Seq::<char>::empty() =~= s.push('\n'));
    assert(pieces(s.push('\n'), '\n') =~= parts.push(Seq::empty()));
    assert(lines(s.push('\n')) =~= Seq::new(parts.len(), |i: int| without_return(parts[i])));
}

/// No line holds a line feed.
pub proof fn lemma_lines_clean(s: Seq<char>)
    ensures
        forall|i: int| 0 <= i < lines(s).len() ==> !(#[trigger] lines(s)[i]).contains('\n'),
{
    lemma_pieces_nonempty(s, '\n');
    lemma_pieces_clean(s, '\n');
    let p = pieces(s, '\n');
    assert forall|i: int| 0 <= i < lines(s).len() implies !(#[trigger] lines(s)[i]).contains(
        '\n',
    ) by {
        assert(!p[i].contains('\n'));
        if i < p.len() - 1 {
            let w = without_return(p[i]);
            assert(lines(s)[i] == w);
            if w.contains('\n') {
                let k = choose|k: int| 0 <= k < w.len() && w[k] == '\n';
                assert(p[i][k] == '\n');
            }
        } else {
            assert(lines(s)[i] == p.last());
        }
    }
}

/// The pieces of `s` between the separators `c`.
pub fn split(s: &str, c: char) -> (r: Vec<String>)
    ensures
        views(r@) == pieces(s@, c),
        r@.len() >= 1,
{
    let v = chars_of(s);
    let mut out: Vec<String> = Vec::new();
    let mut cur = String::new();
    let mut i: usize = 0;
    assert(v@.take(0) =~= Seq::<char>::empty());
    assert(views(out@).push(cur@) =~= pieces(v@.take(0), c));
    while i < v.len()
        invariant
            i <= v@.len(),
            views(out@).push(cur@) =~= pieces(v@.take(i as int), c),
        decreases v@.len() - i,
    {
        let ghost head = v@.take(i + 1);
        assert(head.drop_last() =~= v@.take(i as int));
        assert(head.last() == v@[i as int]);
        let ghost done = views(out@);
        let ghost last = cur@;
        assert(done.push(last).drop_last() =~= done);
        if v[i] == c {
            out.push(cur);
            cur = String::new();
            assert(views(out@) =~= done.push(last));
        } else {
            cur.push(v[i]);
        }
        i = i + 1;
    }
    assert(v@.take(i as int) =~= s@);
    let ghost done = views(out@);
    let ghost last = cur@;
    out.push(cur);
    assert(views(out@) =~= done.push(last));
    out
}

/// The maximal runs of characters other than white space.
pub fn split_words(s: &str) -> (r: Vec<String>)
    ensures
        views(r@) == words(s@),
{
    let v = chars_of(s);
    let mut out: Vec<String> = Vec::new();
    let mut cur = String::new();
    let mut open = false;
    let mut i: usize = 0;
    assert(v@.take(0) =~= Seq::<char>::empty());
    assert(views(out@) =~= words(v@.take(0)));
    while i < v.len()
        invariant
            i <= v@.len(),
            open == (i > 0 && !white(v@[i - 1])),
            open ==> views(out@).push(cur@) =~= words(v@.take(i as int)),
            !open ==> cur@.len() == 0 && views(out@) =~= words(v@.take(i as int)),
        decreases v@.len() - i,
    {
        let ghost head = v@.take(i + 1);
        assert(head.drop_last() =~= v@.take(i as int));
        assert(head.last() == v@[i as int]);
        assert(i > 0 ==> head[head.len() - 2] == v@[i - 1]);
        let ghost done = views(out@);
        let ghost last = cur@;
        assert(done.push(last).drop_last() =~= done);
        if is_white(v[i]) {
            if open {
                out.push(cur);
                cur = String::new();
                assert(views(out@) =~= done.push(last));
                open = false;
            }
        } else {
            cur.push(v[i]);
            assert(!open ==> cur@ =~= seq![v@[i as int]]);
            open = true;
        }
        i = i + 1;
    }
    assert(v@.take(i as int) =~= s@);
    if open {
        let ghost done = views(out@);
        let ghost last = cur@;
        out.push(cur);
        assert(views(out@) =~= done.push(last));
    }
    out
}

/// The lines of `s`.
pub fn split_lines(s: &str) -> (r: Vec<String>)
    ensures
        views(r@) == lines(s@),
{
    let parts = split(s, '\n');
    let n: usize = parts.len();
    let mut out: Vec<String> = Vec::new();
    let mut i: usize = 0;
    let ghost ps = pieces(s@, '\n');
    while i < n - 1
        invariant
            n == parts@.len(),
            views(parts@) == ps,
            i <= n - 1,
            out@.len() == i,
            forall|j: int| 0 <= j < i ==> #[trigger] out@[j]@ == without_return(ps[j]),
        decreases n - i,
    {
        let v = chars_of(parts[i].as_str());
        assert(ps[i as int] == v@);
        let m: usize = v.len();
        let line = if m > 0 && v[m - 1] == '\r' {
            assert(v@.subrange(0, m - 1) =~= v@.drop_last());
            string_of_range(&v, 0, m - 1)
        } else {
            parts[i].clone()
        };
        out.push(line);
        i = i + 1;
    }
    assert(ps.last() == parts@[n - 1]@);
    if !parts[n - 1].as_str().is_empty() {
        out.push(parts[n - 1].clone());
    }
    assert(views(out@) =~= lines(s@));
    out
}

/// The texts of `parts` one after another, with `sep` between neighbours.
pub fn join(parts: &Vec<String>, sep: &str) -> (r: String)
    ensures
        r@ == joined(views(parts@), sep@),
{
    if parts.len() == 0 {
        return String::new();
    }
    let mut out = parts[0].clone();
    let mut i: usize = 1;
    assert(views(parts@).take(1).len() == 1);
    while i < parts.len()
        invariant
            1 <= i <= parts@.len(),
            out@ == joined(views(parts@).take(i as int), sep@),
        decreases parts@.len() - i,
    {
        assert(views(parts@).take(i + 1).drop_last() =~= views(parts@).take(i as int));
        out.append(sep);
        out.append(parts[i].as_str());
        i = i + 1;
    }
    assert(views(parts@).take(i as int) =~= views(parts@));
    out
}

/// `s` with each occurrence of the non-empty `pat` replaced by `to`.
pub fn replace(s: &str, pat: &str, to: &str) -> (r: String)
    requires
        pat@.len() > 0,
    ensures
        r@ == replaced(s@, pat@, to@),
{
    let v = chars_of(s);
    let p = chars_of(pat);
    let mut out = String::new();
    let mut i: usize = 0;
    assert(out@ + replaced_from(v@, p@, to@, 0) =~= replaced(s@, pat@, to@));
    while i < v.len()
        invariant
            p@.len() > 0,
            p@ == pat@,
            v@ == s@,
            i <= v@.len(),
            out@ + replaced_from(v@, p@, to@, i as int) == replaced(s@, pat@, to@),
        decreases v@.len() - i,
    {
        let ghost so_far = out@;
        if stands_at(&v, &p, i) {
            out.append(to);
            assert(so_far + (to@ + replaced_from(v@, p@, to@, i + p@.len())) =~= out@
                + replaced_from(v@, p@, to@, i + p@.len()));
            i = i + p.len();
        } else {
            out.push(v[i]);
            assert(so_far + (seq![v@[i as int]] + replaced_from(v@, p@, to@, i + 1)) =~= out@
                + replaced_from(v@, p@, to@, i + 1));
            i = i + 1;
        }
    }
    assert(out@ + Seq::<char>::empty() =~= out@);
    out
}

/// The characters that make up the first `n` bytes of `s`, where a character ends there.
pub fn take_bytes(s: &str, n: u32) -> (r: Option<String>)
    ensures
        opt_view(r) == byte_prefix(s@, n as int),
{
    let v = chars_of(s);
    let mut out = String::new();
    let mut left: u32 = n;
    let mut i: usize = 0;
    assert(v@.skip(0) =~= v@);
    proof {
        lemma_prefix_grows(out@, byte_prefix(v@, n as int));
    }
    while left > 0
        invariant
            v@ == s@,
            i <= v@.len(),
            byte_prefix(v@, n as int) == (match byte_prefix(v@.skip(i as int), left as int) {
                Some(t) => Some(out@ + t),
                None => None,
            }),
        decreases v@.len() - i,
    {
        if i == v.len() {
            return None;
        }
        let c: u32 = v[i] as u32;
        let k: u32 = if c < 0x80 {
            1
        } else if c < 0x800 {
            2
        } else if c < 0x10000 {
            3
        } else {
            4
        };
        assert(v@.skip(i as int).skip(1) =~= v@.skip(i + 1));
        if k > left {
            proof {
                reveal_with_fuel(byte_prefix, 2);
            }
            return None;
        }
        let ghost so_far = out@;
        out.push(v[i]);
        left = left - k;
        i = i + 1;
        proof {
            if let Some(t) = byte_prefix(v@.skip(i as int), left as int) {
                assert(so_far + (seq![v@[i - 1]] + t) =~= out@ + t);
            }
        }
    }
    assert(out@ + Seq::<char>::empty() =~= out@);
    Some(out)
}

proof fn lemma_prefix_grows(empty: Seq<char>, p: Option<Seq<char>>)
    requires
        empty.len() == 0,
    ensures
        p == (match p {
            Some(t) => Some(empty + t),
            None => None,
        }),
{
    if let Some(t) = p {
        assert(empty + t =~= t);
    }
}

/// `s` followed by spaces up to a width of `n` characters.
pub fn pad(s: &str, n: usize) -> (r: String)
    ensures
        r@ == padded(s@, n as nat),
{
    let mut out = s.to_owned();
    let mut k: usize = s.unicode_len();
    let ghost len = s@.len();
    assert(repeated(' ', 0) =~= Seq::<char>::empty());
    assert(out@ + repeated(' ', 0) =~= s@);
    while k < n
        invariant
            len == s@.len(),
            len <= k,
            k <= n || k == len,
            out@ =~= s@ + repeated(' ', (k - len) as nat),
        decreases n - k,
    {
        out.push(' ');
        k = k + 1;
    }
    out
}

/// `n` copies of `c`.
pub fn repeat(c: char, n: usize) -> (r: String)
    ensures
        r@ == repeated(c, n as nat),
{
    let mut out = String::new();
    let mut k: usize = 0;
    while k < n
        invariant
            k <= n,
            out@ =~= repeated(c, k as nat),
        decreases n - k,
    {
        out.push(c);
        k = k + 1;
    }
    out
}

/// `s` behind spaces, up to a width of `n` characters.
pub fn pad_left(s: &str, n: usize) -> (r: String)
    ensures
        r@ == padded_left(s@, n as nat),
{
    let k: usize = s.unicode_len();
    if k >= n {
        s.to_owned()
    } else {
        let mut out = repeat(' ', n - k);
        out.append(s);
        out
    }
}

/// The lower-case counterpart of an ASCII letter.
pub fn to_ascii_lower(c: char) -> (r: char)
    ensures
        r == ascii_lower(c),
{
    if 'A' <= c && c <= 'Z' {
        ((c as u8) + 32) as char
    } else {
        c
    }
}

/// `s` with each ASCII letter in lower case.
pub fn lower(s: &str) -> (r: String)
    ensures
        r@ == lowered(s@),
{
    let v = chars_of(s);
    let mut out = String::new();
    let mut i: usize = 0;
    while i < v.len()
        invariant
            i <= v@.len(),
            out@.len() == i,
            forall|j: int| 0 <= j < i ==> out@[j] == ascii_lower(v@[j]),
        decreases v@.len() - i,
    {
        out.push(to_ascii_lower(v[i]));
        i = i + 1;
    }
    assert(out@ =~= lowered(s@));
    out
}

/// Whether `a` comes strictly before `b` in the order of their code points.
pub fn comes_before(a: &str, b: &str) -> (r: bool)
    ensures
        r == before(a@, b@),
{
    let x = chars_of(a);
    let y = chars_of(b);
    let mut i: usize = 0;
    assert(x@.skip(0) =~= x@);
    assert(y@.skip(0) =~= y@);
    while i < x.len() && i < y.len()
        invariant
            x@ == a@,
            y@ == b@,
            i <= x@.len(),
            i <= y@.len(),
            before(a@, b@) == before(x@.skip(i as int), y@.skip(i as int)),
        decreases x@.len() - i,
    {
        if x[i] != y[i] {
            return x[i] < y[i];
        }
        assert(x@.skip(i as int).skip(1) =~= x@.skip(i + 1));
        assert(y@.skip(i as int).skip(1) =~= y@.skip(i + 1));
        i = i + 1;
    }
    i < y.len()
}

// ---------------------------------------------------------------------------
// Laws
// ---------------------------------------------------------------------------

/// What stands between two texts stands in all of it, and so does what stands in what stands there.
pub proof fn lemma_has_middle(a: Seq<char>, b: Seq<char>, c: Seq<char>, pat: Seq<char>)
    ensures
        has_sub(a + b + c, b),
        has_sub(b, pat) ==> has_sub(a + b + c, pat),
{
    let s = a + b + c;
    let n = a.len() as int;
    assert(s.subrange(n, n + b.len()) =~= b);
    assert(occurs_at(s, b, n));
    if has_sub(b, pat) {
        let i = choose|i: int| #[trigger] occurs_at(b, pat, i);
        assert(s.subrange(n + i, n + i + pat.len()) =~= b.subrange(i, i + pat.len()));
        assert(occurs_at(s, pat, n + i));
    }
}

proof fn lemma_trimmed_start(s: Seq<char>)
    ensures
        trimmed_start(s).len() <= s.len(),
        trimmed_start(s) == s.skip(s.len() - trimmed_start(s).len()),
        trimmed_start(s).len() > 0 ==> !white(trimmed_start(s)[0]),
        forall|i: int| 0 <= i < s.len() - trimmed_start(s).len() ==> white(#[trigger] s[i]),
    decreases s.len(),
{
    if s.len() > 0 && white(s[0]) {
        let t = s.skip(1);
        lemma_trimmed_start(t);
        assert(trimmed_start(s) =~= s.skip(s.len() - trimmed_start(s).len()));
        assert forall|i: int| 0 <= i < s.len() - trimmed_start(s).len() implies white(
            #[trigger] s[i],
        ) by {
            if i > 0 {
                assert(t[i - 1] == s[i]);
            }
        }
    } else {
        assert(s.skip(0) =~= s);
    }
}

proof fn lemma_trimmed_end(s: Seq<char>)
    ensures
        trimmed_end(s).len() <= s.len(),
        trimmed_end(s) == s.take(trimmed_end(s).len() as int),
        trimmed_end(s).len() > 0 ==> !white(trimmed_end(s).last()),
        forall|i: int| trimmed_end(s).len() <= i < s.len() ==> white(#[trigger] s[i]),
    decreases s.len(),
{
    if s.len() > 0 && white(s.last()) {
        let t = s.drop_last();
        lemma_trimmed_end(t);
        assert(trimmed_end(s) =~= s.take(trimmed_end(s).len() as int));
        assert forall|i: int| trimmed_end(s).len() <= i < s.len() implies white(
            #[trigger] s[i],
        ) by {
            if i < t.len() {
                assert(t[i] == s[i]);
            }
        }
    } else {
        assert(s.take(s.len() as int) =~= s);
    }
}

/// Trimming takes white space off both ends, all of it, and nothing else.
pub proof fn law_trimming_takes_white_space(s: Seq<char>)
    ensures
        trimmed(s).len() > 0 ==> !white(trimmed(s)[0]) && !white(trimmed(s).last()),
        exists|i: int|
            #![trigger s.skip(i)]
            0 <= i <= s.len() && i + trimmed(s).len() <= s.len() && s.subrange(
                i,
                i + trimmed(s).len(),
            ) == trimmed(s) && (forall|j: int| 0 <= j < i ==> white(#[trigger] s[j])) && (forall|
                j: int,
            |
                i + trimmed(s).len() <= j < s.len() ==> white(#[trigger] s[j])),
        (s.len() == 0 || (!white(s[0]) && !white(s.last()))) ==> trimmed(s) == s,
{
    let t = trimmed_start(s);
    lemma_trimmed_start(s);
    lemma_trimmed_end(t);
    let i = s.len() - t.len();
    let n = trimmed(s).len();
    assert(s.skip(i) == t);
    assert(s.subrange(i, i + n) =~= trimmed(s));
    assert forall|j: int| i + n <= j < s.len() implies white(#[trigger] s[j]) by {
        assert(t[j - i] == s[j]);
    }
    if n > 0 {
        assert(trimmed(s)[0] == t[0]);
    }
}

proof fn lemma_replaced_from(s: Seq<char>, pat: Seq<char>, to: Seq<char>, from: int)
    requires
        pat.len() > 0,
        0 <= from <= s.len(),
        forall|i: int| from <= i ==> !(#[trigger] occurs_at(s, pat, i)),
    ensures
        replaced_from(s, pat, to, from) == s.skip(from),
    decreases s.len() - from,
{
    if from < s.len() {
        lemma_replaced_from(s, pat, to, from + 1);
        assert(seq![s[from]] + s.skip(from + 1) =~= s.skip(from));
    } else {
        assert(s.skip(from) =~= Seq::<char>::empty());
    }
}

proof fn lemma_replaced_tail(a: Seq<char>, b: Seq<char>, pat: Seq<char>, to: Seq<char>, from: int)
    requires
        pat.len() > 0,
        0 <= from <= b.len(),
    ensures
        replaced_from(a + b, pat, to, a.len() + from) == replaced_from(b, pat, to, from),
    decreases b.len() - from,
{
    let s = a + b;
    if from < b.len() {
        if from + pat.len() <= b.len() {
            assert(s.subrange(a.len() + from, a.len() + from + pat.len()) =~= b.subrange(
                from,
                from + pat.len(),
            ));
        }
        assert(occurs_at(s, pat, a.len() + from) == occurs_at(b, pat, from));
        if occurs_at(b, pat, from) {
            lemma_replaced_tail(a, b, pat, to, from + pat.len());
        } else {
            lemma_replaced_tail(a, b, pat, to, from + 1);
        }
    }
}

/// A text without a pattern is left as it is, and of one with it the first occurrence is replaced and
/// then what follows it.
pub proof fn law_replacing_goes_left_to_right(s: Seq<char>, pat: Seq<char>, to: Seq<char>, i: int)
    requires
        pat.len() > 0,
    ensures
        !has_sub(s, pat) ==> replaced(s, pat, to) == s,
        sub_index(s, pat) == Some(i) ==> replaced(s, pat, to) == s.take(i) + to + replaced(
            s.skip(i + pat.len()),
            pat,
            to,
        ),
{
    if !has_sub(s, pat) {
        lemma_replaced_from(s, pat, to, 0);
        assert(s.skip(0) =~= s);
    }
    if sub_index(s, pat) == Some(i) {
        lemma_sub_index_from(s, pat, 0);
        lemma_replaced_before(s, pat, to, 0, i);
        let head = s.take(i + pat.len());
        let tail = s.skip(i + pat.len());
        assert(head + tail =~= s);
        lemma_replaced_tail(head, tail, pat, to, 0);
        assert(s.subrange(0, i) =~= s.take(i));
        assert(replaced(s, pat, to) =~= s.take(i) + to + replaced(tail, pat, to));
    }
}

proof fn lemma_replaced_before(s: Seq<char>, pat: Seq<char>, to: Seq<char>, from: int, i: int)
    requires
        pat.len() > 0,
        0 <= from <= i,
        occurs_at(s, pat, i),
        forall|j: int| from <= j < i ==> !(#[trigger] occurs_at(s, pat, j)),
    ensures
        replaced_from(s, pat, to, from) == s.subrange(from, i) + to + replaced_from(
            s,
            pat,
            to,
            i + pat.len(),
        ),
    decreases i - from,
{
    let rest = replaced_from(s, pat, to, i + pat.len());
    if from < i {
        lemma_replaced_before(s, pat, to, from + 1, i);
        assert(seq![s[from]] + (s.subrange(from + 1, i) + to + rest) =~= s.subrange(from, i) + to
            + rest);
    } else {
        assert(s.subrange(from, i) + to + rest =~= to + rest);
    }
}

/// Padding fills a text up with spaces on one side, never cuts it, and leaves no text shorter than the
/// width.
pub proof fn law_padding_keeps_the_text(s: Seq<char>, n: nat)
    ensures
        begins(padded(s, n), s),
        ends(padded_left(s, n), s),
        padded(s, n).len() == if s.len() >= n {
            s.len()
        } else {
            n
        },
        padded_left(s, n).len() == padded(s, n).len(),
        forall|i: int| s.len() <= i < padded(s, n).len() ==> padded(s, n)[i] == ' ',
{
    assert(padded(s, n).subrange(0, s.len() as int) =~= s);
    let p = padded_left(s, n);
    assert(p.subrange(p.len() - s.len(), p.len() as int) =~= s);
}

/// Lower case differs from a text in capital letters alone, and lower case of lower case is the same.
pub proof fn law_lower_case_has_no_capitals(s: Seq<char>, i: int)
    requires
        0 <= i < s.len(),
    ensures
        lowered(s).len() == s.len(),
        !('A' <= lowered(s)[i] && lowered(s)[i] <= 'Z'),
        !('A' <= s[i] && s[i] <= 'Z') ==> lowered(s)[i] == s[i],
        lowered(lowered(s)) == lowered(s),
{
    assert(lowered(lowered(s)) =~= lowered(s));
}

/// Texts that are joined once are those that were known and the others, and none comes twice unless it
/// did before.
pub proof fn law_joining_once_repeats_nothing(
    known: Seq<Seq<char>>,
    items: Seq<Seq<char>>,
    x: Seq<char>,
)
    ensures
        joined_once(known, items).contains(x) <==> known.contains(x) || items.contains(x),
        known.no_duplicates() ==> joined_once(known, items).no_duplicates(),
        joined_once(known, items).take(known.len() as int) == known,
        joined_once(known, items).len() >= known.len(),
    decreases items.len(),
{
    if items.len() > 0 {
        let d = items.drop_last();
        let y = items.last();
        let a = joined_once(known, d);
        law_joining_once_repeats_nothing(known, d, x);
        law_joining_once_repeats_nothing(known, d, y);
        assert(items[items.len() - 1] == y);
        assert(a.push(y)[a.len() as int] == y);
        if a.contains(x) {
            let i = choose|i: int| 0 <= i < a.len() && a[i] == x;
            assert(a.push(y)[i] == x);
        }
        if a.push(y).contains(x) && x != y {
            let i = choose|i: int| 0 <= i < a.push(y).len() && a.push(y)[i] == x;
            assert(a[i] == x);
        }
        if d.contains(x) {
            let i = choose|i: int| 0 <= i < d.len() && d[i] == x;
            assert(items[i] == x);
        }
        if items.contains(x) && x != y {
            let i = choose|i: int| 0 <= i < items.len() && items[i] == x;
            assert(d[i] == x);
        }
        assert(joined_once(known, items).take(known.len() as int) =~= known);
    } else {
        assert(known.take(known.len() as int) =~= known);
    }
}

/// No word holds white space, and none is empty.
pub proof fn law_words_hold_no_white_space(s: Seq<char>)
    ensures
        forall|i: int|
            0 <= i < words(s).len() ==> (#[trigger] words(s)[i]).len() > 0 && forall|j: int|
                0 <= j < words(s)[i].len() ==> !white(#[trigger] words(s)[i][j]),
    decreases s.len(),
{
    if s.len() > 0 {
        let d = s.drop_last();
        law_words_hold_no_white_space(d);
        lemma_words_open(d);
        let b = words(d);
        if !white(s.last()) {
            if s.len() >= 2 && !white(s[s.len() - 2]) {
                assert(d.last() == s[s.len() - 2]);
                let w = b.last().push(s.last());
                assert forall|j: int| 0 <= j < w.len() implies !white(#[trigger] w[j]) by {
                    if j < b.last().len() {
                        assert(w[j] == b[b.len() - 1][j]);
                    }
                }
                assert forall|i: int| 0 <= i < words(s).len() implies (#[trigger] words(s)[i]).len()
                    > 0 && forall|j: int|
                    0 <= j < words(s)[i].len() ==> !white(#[trigger] words(s)[i][j]) by {
                    if i < b.len() - 1 {
                        assert(words(s)[i] == b[i]);
                    } else {
                        assert(words(s)[i] == w);
                    }
                }
            } else {
                assert forall|i: int| 0 <= i < words(s).len() implies (#[trigger] words(s)[i]).len()
                    > 0 && forall|j: int|
                    0 <= j < words(s)[i].len() ==> !white(#[trigger] words(s)[i][j]) by {
                    if i < b.len() {
                        assert(words(s)[i] == b[i]);
                    } else {
                        assert(words(s)[i] == seq![s.last()]);
                    }
                }
            }
        }
    }
}

/// What stands in a part of a text stands in the text.
pub proof fn lemma_has_in(pat: Seq<char>, a: Seq<char>, b: Seq<char>)
    ensures
        has_sub(a, pat) ==> has_sub(a + b, pat),
        has_sub(b, pat) ==> has_sub(a + b, pat),
        has_sub(a + pat + b, pat),
        has_sub(pat, pat),
{
    let none = Seq::<char>::empty();
    lemma_has_middle(none, a, b, pat);
    assert(none + a + b =~= a + b);
    lemma_has_middle(a, b, none, pat);
    assert(a + b + none =~= a + b);
    lemma_has_middle(a, pat, b, pat);
    lemma_has_middle(none, pat, none, pat);
    assert(none + pat + none =~= pat);
}

/// Each text of a list stands in quotes between the brackets.
pub proof fn law_lists_hold_their_texts(v: Seq<Seq<char>>, i: int)
    requires
        0 <= i < v.len(),
    ensures
        has_sub(quoted_list(v), "\""@ + v[i] + "\""@),
        begins(quoted_list(v), "["@),
        ends(quoted_list(v), "]"@),
{
    let q = Seq::new(v.len(), |i: int| "\""@ + v[i] + "\""@);
    let x = q[i];
    lemma_part_of_joined(q, ", "@, i);
    let j = joined(q, ", "@);
    lemma_has_in(x, "["@, j);
    lemma_has_in(x, "["@ + j, "]"@);
    let s = "["@ + j + "]"@;
    assert(s.subrange(0, "["@.len() as int) =~= "["@);
    assert(s.subrange(s.len() - "]"@.len(), s.len() as int) =~= "]"@);
}

/// Each part stands in what parts are joined to.
pub proof fn lemma_part_of_joined(parts: Seq<Seq<char>>, sep: Seq<char>, i: int)
    requires
        0 <= i < parts.len(),
    ensures
        has_sub(joined(parts, sep), parts[i]),
    decreases parts.len(),
{
    let x = parts[i];
    lemma_has_in(x, x, x);
    if parts.len() > 1 {
        let d = parts.drop_last();
        let j = joined(d, sep);
        let l = parts.last();
        lemma_has_in(x, j, sep);
        lemma_has_in(x, j + sep, l);
        if i < d.len() {
            lemma_part_of_joined(d, sep, i);
            assert(d[i] == x);
        }
    }
}

/// A letter in one case is thirty-two apart from the same letter in the other, and what is made upper
/// case is made lower case again.
pub proof fn law_cases_are_thirty_two_apart(s: Seq<char>, i: int)
    requires
        0 <= i < s.len(),
    ensures
        'A' <= s[i] <= 'Z' ==> lowered(s)[i] as u32 == s[i] as u32 + 32,
        'a' <= s[i] <= 'z' ==> uppered(s)[i] as u32 == s[i] as u32 - 32,
        !('a' <= s[i] <= 'z') ==> uppered(s)[i] == s[i],
        uppered(s).len() == s.len(),
        lowered(uppered(s))[i] == lowered(s)[i],
{
}

/// What stands before a number of bytes is the beginning of the text that takes as many.
pub proof fn law_prefixes_take_their_bytes(s: Seq<char>, n: int)
    requires
        0 <= n,
    ensures
        byte_prefix(s, n) matches Some(p) ==> begins(s, p) && byte_len(p) == n,
        n == 0 ==> byte_prefix(s, n) == Some(Seq::<char>::empty()),
    decreases s.len(),
{
    if n > 0 && s.len() > 0 && n >= utf8_len(s[0]) {
        let r = s.skip(1);
        let m = n - utf8_len(s[0]);
        law_prefixes_take_their_bytes(r, m);
        if let Some(t) = byte_prefix(r, m) {
            let p = seq![s[0]] + t;
            lemma_byte_len_front(s[0], t);
            assert(r.subrange(0, t.len() as int) == t);
            assert forall|i: int| 0 <= i < p.len() implies s[i] == p[i] by {
                if i > 0 {
                    assert(r.subrange(0, t.len() as int)[i - 1] == r[i - 1]);
                }
            }
            assert(s.subrange(0, p.len() as int) =~= p);
        }
    } else if n > 0 && s.len() > 0 {
        assert(byte_prefix(s.skip(1), n - utf8_len(s[0])) is None);
    } else if n == 0 {
        assert(s.subrange(0, 0) =~= Seq::<char>::empty());
    }
}

proof fn lemma_byte_len_front(c: char, t: Seq<char>)
    ensures
        byte_len(seq![c] + t) == utf8_len(c) + byte_len(t),
    decreases t.len(),
{
    let s = seq![c] + t;
    if t.len() == 0 {
        assert(s.drop_last() =~= Seq::<char>::empty());
        assert(s.last() == c);
        assert(byte_len(s.drop_last()) == 0 && byte_len(t) == 0);
    } else {
        lemma_byte_len_front(c, t.drop_last());
        assert(s.drop_last() =~= seq![c] + t.drop_last());
        assert(s.last() == t.last());
    }
}

/// What is stripped from an end is the character alone, and all of it.
pub proof fn law_stripping_takes_one_character(s: Seq<char>, c: char)
    ensures
        ends(s, stripped_start(s, c)),
        begins(s, stripped_end(s, c)),
        stripped_start(s, c).len() > 0 ==> stripped_start(s, c)[0] != c,
        stripped_end(s, c).len() > 0 ==> stripped_end(s, c).last() != c,
        s.len() > 0 && s[0] != c ==> stripped_start(s, c) == s,
        s.len() > 0 && s.last() != c ==> stripped_end(s, c) == s,
    decreases s.len(),
{
    if s.len() > 0 {
        law_stripping_takes_one_character(s.skip(1), c);
        law_stripping_takes_one_character(s.drop_last(), c);
        let a = stripped_start(s.skip(1), c);
        let b = stripped_end(s.drop_last(), c);
        let r = s.skip(1);
        assert(s.subrange(s.len() - a.len(), s.len() as int) =~= r.subrange(
            r.len() - a.len(),
            r.len() as int,
        ));
        assert(s.subrange(0, b.len() as int) =~= s.drop_last().subrange(0, b.len() as int));
    }
    assert(s.subrange(0, s.len() as int) =~= s);
}

/// Joined texts hold every text, the first at their beginning and the last at their end, and the
/// separator between each two.
pub proof fn law_joined_texts_are_all_there(parts: Seq<Seq<char>>, sep: Seq<char>, i: int)
    requires
        0 <= i < parts.len(),
    ensures
        has_sub(joined(parts, sep), parts[i]),
        begins(joined(parts, sep), parts[0]),
        ends(joined(parts, sep), parts.last()),
        parts.len() == 2 ==> joined(parts, sep) == parts[0] + sep + parts[1],
    decreases parts.len(),
{
    lemma_part_of_joined(parts, sep, i);
    let j = joined(parts, sep);
    if parts.len() == 1 {
        assert(j.subrange(0, j.len() as int) =~= j);
    } else {
        let d = parts.drop_last();
        law_joined_texts_are_all_there(d, sep, 0);
        let h = joined(d, sep);
        assert(d[0] == parts[0]);
        assert(h.subrange(0, parts[0].len() as int) == parts[0]);
        assert(j.subrange(0, parts[0].len() as int) =~= h.subrange(0, parts[0].len() as int));
        let l = parts.last();
        assert(j.subrange(j.len() - l.len(), j.len() as int) =~= l);
    }
}

} // verus!
