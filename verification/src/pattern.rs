//! The regular expressions of the program, and what they find.

use vstd::prelude::*;
use regex::Regex;
use crate::number::digit;
use crate::text::{all_ascii, occurs_at, opt_view, white};

verus! {

/// The expression that finds the host in a rule of an ingress route.
pub const HOST_PATTERN: &'static str = "Host\\(`([^`]+)`\\)";

/// The expression that finds the path in a rule of an ingress route.
pub const PATH_PATTERN: &'static str = "PathPrefix\\(`([^`]+)`\\)";

/// The expression that finds the number of packets in what tcpdump says.
pub const PACKET_PATTERN: &'static str = "(\\d+)\\s+packets\\s+captured";

/// What the first group of the regular expression `pattern` holds where it first matches in
/// `text`.
pub uninterp spec fn regex_group(pattern: Seq<char>, text: Seq<char>) -> Option<Seq<char>>;

/// The index of the first back quote from `i` on, or the length.
pub open spec fn quote_from(s: Seq<char>, i: int) -> int
    decreases s.len() - i,
{
    if i < 0 || i >= s.len() || s[i] == '`' {
        i
    } else {
        quote_from(s, i + 1)
    }
}

/// What stands between `head` at index `i` and a back quote with a closing bracket: the first back
/// quote has to be the one, and something has to stand before it.
pub open spec fn quoted_at(s: Seq<char>, head: Seq<char>, i: int) -> Option<Seq<char>> {
    let a = i + head.len();
    let b = quote_from(s, a);
    if occurs_at(s, head, i) && a < b && b + 1 < s.len() && s[b + 1] == ')' {
        Some(s.subrange(a, b))
    } else {
        None
    }
}

/// The first such text from index `i` on.
pub open spec fn quoted_from(s: Seq<char>, head: Seq<char>, i: int) -> Option<Seq<char>>
    decreases s.len() - i,
{
    if i < 0 || i >= s.len() {
        None
    } else if quoted_at(s, head, i) is Some {
        quoted_at(s, head, i)
    } else {
        quoted_from(s, head, i + 1)
    }
}

/// The end of the digits at index `i`.
pub open spec fn digits_from(s: Seq<char>, i: int) -> int
    decreases s.len() - i,
{
    if 0 <= i < s.len() && digit(s[i]) {
        digits_from(s, i + 1)
    } else {
        i
    }
}

/// The end of the white space at index `i`.
pub open spec fn blanks_from(s: Seq<char>, i: int) -> int
    decreases s.len() - i,
{
    if 0 <= i < s.len() && white(s[i]) {
        blanks_from(s, i + 1)
    } else {
        i
    }
}

/// The digits at index `i`, where `packets captured` follows them, with white space before each
/// of the two words.
pub open spec fn count_at(s: Seq<char>, i: int) -> Option<Seq<char>> {
    let a = digits_from(s, i);
    let b = blanks_from(s, a);
    let c = b + "packets"@.len();
    let d = blanks_from(s, c);
    if i < a < b && occurs_at(s, "packets"@, b) && c < d && occurs_at(s, "captured"@, d) {
        Some(s.subrange(i, a))
    } else {
        None
    }
}

/// The first such digits from index `i` on.
pub open spec fn count_from(s: Seq<char>, i: int) -> Option<Seq<char>>
    decreases s.len() - i,
{
    if i < 0 || i >= s.len() {
        None
    } else if count_at(s, i) is Some {
        count_at(s, i)
    } else {
        count_from(s, i + 1)
    }
}

/// The number of packets in a line. Digits and white space of other scripts than ASCII are those
/// of the regular expression.
pub open spec fn count_in(line: Seq<char>) -> Option<Seq<char>> {
    if all_ascii(line) {
        count_from(line, 0)
    } else {
        regex_group(PACKET_PATTERN@, line)
    }
}

/// Calls `Regex::new` and `Regex::captures` of the crate `regex`: what the first group holds where
/// the expression first matches. The result is a function of the expression and the text; it is
/// nothing where there is no match, no such group, or no such expression. What the expressions of
/// this program find is claimed in full, that for packets in ASCII texts.
#[verifier::external_body]
pub(crate) fn first_group(pattern: &str, text: &str) -> (r: Option<String>)
    ensures
        opt_view(r) == regex_group(pattern@, text@),
        pattern@ == HOST_PATTERN@ ==> opt_view(r) == quoted_from(text@, "Host(`"@, 0),
        pattern@ == PATH_PATTERN@ ==> opt_view(r) == quoted_from(text@, "PathPrefix(`"@, 0),
        pattern@ == PACKET_PATTERN@ && all_ascii(text@) ==> opt_view(r) == count_from(text@, 0),
{
    let re = Regex::new(pattern).ok()?;
    let found = re.captures(text)?.get(1)?;
    Some(found.as_str().to_owned())
}

// ---------------------------------------------------------------------------
// Searches
// ---------------------------------------------------------------------------

/// Where a search for a back quote ends.
pub proof fn lemma_quote_from(s: Seq<char>, i: int, j: int)
    requires
        0 <= i <= j < s.len(),
        s[j] == '`',
        forall|k: int| i <= k < j ==> #[trigger] s[k] != '`',
    ensures
        quote_from(s, i) == j,
    decreases j - i,
{
    if i < j {
        lemma_quote_from(s, i + 1, j);
    }
}

/// A search finds the first text that there is.
pub proof fn lemma_quoted_first(s: Seq<char>, head: Seq<char>, i: int, k: int)
    requires
        0 <= i <= k < s.len(),
        quoted_at(s, head, k) is Some,
        forall|j: int| i <= j < k ==> #[trigger] quoted_at(s, head, j) is None,
    ensures
        quoted_from(s, head, i) == quoted_at(s, head, k),
    decreases k - i,
{
    if i < k {
        lemma_quoted_first(s, head, i + 1, k);
    }
}

/// A search finds nothing where there is nothing.
pub proof fn lemma_quoted_none(s: Seq<char>, head: Seq<char>, i: int)
    requires
        0 <= i,
        forall|j: int| i <= j < s.len() ==> #[trigger] quoted_at(s, head, j) is None,
    ensures
        quoted_from(s, head, i) is None,
    decreases s.len() - i,
{
    if i < s.len() {
        lemma_quoted_none(s, head, i + 1);
    }
}

/// Where digits end.
pub proof fn lemma_digits_from(s: Seq<char>, i: int, j: int)
    requires
        0 <= i <= j < s.len(),
        !digit(s[j]),
        forall|k: int| i <= k < j ==> digit(#[trigger] s[k]),
    ensures
        digits_from(s, i) == j,
    decreases j - i,
{
    if i < j {
        lemma_digits_from(s, i + 1, j);
    }
}

} // verus!
