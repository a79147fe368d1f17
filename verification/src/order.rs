//! Stable sorting by texts.

use vstd::prelude::*;
use crate::text::{before, comes_before, same, views};

verus! {

/// Whether one list of texts comes before another: by the first texts that differ.
pub open spec fn rank_before(a: Seq<Seq<char>>, b: Seq<Seq<char>>) -> bool
    decreases a.len(),
{
    if b.len() == 0 {
        false
    } else if a.len() == 0 {
        true
    } else if a[0] == b[0] {
        rank_before(a.skip(1), b.skip(1))
    } else {
        before(a[0], b[0])
    }
}

/// A value with texts by which it is sorted.
pub trait HasRank: Sized {
    /// The texts by which values are sorted, the most significant one first.
    spec fn rank(&self) -> Seq<Seq<char>>;
}

/// A value that can be sorted.
pub trait Ranked: HasRank {
    /// Whether this value comes strictly before another.
    fn ranks_before(&self, other: &Self) -> (r: bool)
        ensures
            r == rank_before(self.rank(), other.rank()),
    ;
}

impl HasRank for Seq<char> {
    open spec fn rank(&self) -> Seq<Seq<char>> {
        seq![*self]
    }
}

impl HasRank for String {
    open spec fn rank(&self) -> Seq<Seq<char>> {
        seq![self@]
    }
}

impl Ranked for String {
    fn ranks_before(&self, other: &Self) -> (r: bool) {
        proof {
            lemma_rank_one(self@, other@);
        }
        comes_before(self.as_str(), other.as_str())
    }
}

/// One text decides alone.
pub proof fn lemma_rank_one(a: Seq<char>, b: Seq<char>)
    ensures
        rank_before(seq![a], seq![b]) == before(a, b),
{
    reveal_with_fuel(rank_before, 2);
    lemma_before_irreflexive(a);
}

/// The first of two texts decides, then the second.
pub proof fn lemma_rank_two(a: Seq<char>, b: Seq<char>, c: Seq<char>, d: Seq<char>)
    ensures
        rank_before(seq![a, b], seq![c, d]) == if a == c {
            before(b, d)
        } else {
            before(a, c)
        },
{
    assert(seq![a, b].skip(1) =~= seq![b]);
    assert(seq![c, d].skip(1) =~= seq![d]);
    lemma_rank_one(b, d);
}

/// Whether two pairs of texts come in this order.
pub fn pair_before(a: &str, b: &str, c: &str, d: &str) -> (r: bool)
    ensures
        r == rank_before(seq![a@, b@], seq![c@, d@]),
{
    proof {
        lemma_rank_two(a@, b@, c@, d@);
    }
    if same(a, c) {
        comes_before(b, d)
    } else {
        comes_before(a, c)
    }
}

/// `s` with `x` put behind everything that does not come after it.
pub open spec fn inserted<T: HasRank>(s: Seq<T>, x: T) -> Seq<T>
    decreases s.len(),
{
    if s.len() == 0 || !rank_before(x.rank(), s.last().rank()) {
        s.push(x)
    } else {
        inserted(s.drop_last(), x).push(s.last())
    }
}

/// `s` in order; values of the same rank keep their order.
pub open spec fn ranked<T: HasRank>(s: Seq<T>) -> Seq<T>
    decreases s.len(),
{
    if s.len() == 0 {
        Seq::empty()
    } else {
        inserted(ranked(s.drop_last()), s.last())
    }
}

/// Inserting before a tail of greater values.
proof fn lemma_inserted_at<T: HasRank>(s: Seq<T>, x: T, i: int)
    requires
        0 <= i <= s.len(),
        forall|j: int| i <= j < s.len() ==> rank_before(x.rank(), (#[trigger] s[j]).rank()),
        i > 0 ==> !rank_before(x.rank(), s[i - 1].rank()),
    ensures
        inserted(s, x) == s.take(i).push(x) + s.skip(i),
    decreases s.len(),
{
    if s.len() == i {
        assert(inserted(s, x) =~= s.take(i).push(x) + s.skip(i));
    } else {
        assert(rank_before(x.rank(), s[s.len() - 1].rank()));
        let t = s.drop_last();
        assert forall|j: int| i <= j < t.len() implies rank_before(
            x.rank(),
            (#[trigger] t[j]).rank(),
        ) by {
            assert(t[j] == s[j]);
        }
        lemma_inserted_at(t, x, i);
        assert(inserted(s, x) =~= s.take(i).push(x) + s.skip(i));
    }
}

/// Puts a value into a vector, behind everything that does not come after it.
pub fn insert_ranked<T: Ranked>(v: &mut Vec<T>, x: T)
    ensures
        final(v)@ == inserted(old(v)@, x),
{
    let mut i: usize = v.len();
    while i > 0 && x.ranks_before(&v[i - 1])
        invariant
            i <= v@.len(),
            v@ == old(v)@,
            forall|j: int| i <= j < v@.len() ==> rank_before(x.rank(), (#[trigger] v@[j]).rank()),
        decreases i,
    {
        i = i - 1;
    }
    proof {
        lemma_inserted_at(v@, x, i as int);
    }
    let ghost s = v@;
    let ghost y = x;
    v.insert(i, x);
    assert(v@ =~= s.take(i as int).push(y) + s.skip(i as int));
}

/// The values of a vector in order; values of the same rank keep their order.
pub fn sort_ranked<T: Ranked>(v: Vec<T>) -> (r: Vec<T>)
    ensures
        r@ == ranked(v@),
{
    let ghost all = v@;
    let mut rest = v;
    let mut out: Vec<T> = Vec::new();
    let ghost mut done: int = 0;
    assert(all.take(0) =~= Seq::<T>::empty());
    assert(all.skip(0) =~= all);
    while rest.len() > 0
        invariant
            0 <= done <= all.len(),
            rest@ == all.skip(done),
            out@ == ranked(all.take(done)),
        decreases rest@.len(),
    {
        let x = rest.remove(0);
        proof {
            assert(all.take(done + 1).drop_last() =~= all.take(done));
            assert(all.take(done + 1).last() == x);
            assert(rest@ =~= all.skip(done + 1));
            done = done + 1;
        }
        insert_ranked(&mut out, x);
    }
    assert(all.take(done) =~= all);
    out
}

/// Sorting images of values is the same as taking the images of sorted values, where values and
/// images have the same rank.
pub proof fn lemma_ranked_map<A: HasRank, B: HasRank>(s: Seq<A>, f: spec_fn(A) -> B)
    requires
        forall|x: A| (#[trigger] f(x)).rank() == x.rank(),
    ensures
        ranked(s.map_values(f)) == ranked(s).map_values(f),
    decreases s.len(),
{
    if s.len() == 0 {
        assert(ranked(s.map_values(f)) =~= ranked(s).map_values(f));
    } else {
        lemma_ranked_map(s.drop_last(), f);
        assert(s.map_values(f).drop_last() =~= s.drop_last().map_values(f));
        assert(s.map_values(f).last() == f(s.last()));
        lemma_inserted_map(ranked(s.drop_last()), s.last(), f);
    }
}

proof fn lemma_inserted_map<A: HasRank, B: HasRank>(s: Seq<A>, x: A, f: spec_fn(A) -> B)
    requires
        forall|y: A| (#[trigger] f(y)).rank() == y.rank(),
    ensures
        inserted(s.map_values(f), f(x)) == inserted(s, x).map_values(f),
    decreases s.len(),
{
    if s.len() == 0 || !rank_before(x.rank(), s.last().rank()) {
        assert(s.len() > 0 ==> s.map_values(f).last() == f(s.last()));
        assert(inserted(s.map_values(f), f(x)) =~= inserted(s, x).map_values(f));
    } else {
        assert(s.map_values(f).last() == f(s.last()));
        assert(s.map_values(f).drop_last() =~= s.drop_last().map_values(f));
        lemma_inserted_map(s.drop_last(), x, f);
        assert(inserted(s.map_values(f), f(x)) =~= inserted(s, x).map_values(f));
    }
}

/// The strings of a vector in order.
pub fn sort_texts(v: Vec<String>) -> (r: Vec<String>)
    ensures
        views(r@) == ranked(views(v@)),
{
    let ghost s = v@;
    let r = sort_ranked(v);
    proof {
        let f = |x: String| x@;
        assert(views(s) =~= s.map_values(f));
        assert(views(r@) =~= r@.map_values(f));
        lemma_ranked_map(s, f);
    }
    r
}

// ---------------------------------------------------------------------------
// Laws
// ---------------------------------------------------------------------------

/// No text comes before itself.
pub proof fn lemma_before_irreflexive(a: Seq<char>)
    ensures
        !before(a, a),
    decreases a.len(),
{
    if a.len() > 0 {
        lemma_before_irreflexive(a.skip(1));
    }
}

/// The order of texts is transitive.
pub proof fn lemma_before_transitive(a: Seq<char>, b: Seq<char>, c: Seq<char>)
    requires
        before(a, b),
        before(b, c),
    ensures
        before(a, c),
    decreases a.len(),
{
    if a.len() > 0 && a[0] == b[0] && b[0] == c[0] {
        lemma_before_transitive(a.skip(1), b.skip(1), c.skip(1));
    }
}

/// Different texts come in one order or the other.
pub proof fn lemma_before_total(a: Seq<char>, b: Seq<char>)
    ensures
        a == b || before(a, b) || before(b, a),
    decreases a.len(),
{
    if a.len() == 0 {
        if b.len() == 0 {
            assert(a =~= b);
        }
    } else if b.len() > 0 && a[0] == b[0] {
        lemma_before_total(a.skip(1), b.skip(1));
        if a.skip(1) == b.skip(1) {
            assert(a =~= seq![a[0]] + a.skip(1));
            assert(b =~= seq![b[0]] + b.skip(1));
        }
    }
}

/// No list of texts comes before itself.
pub proof fn lemma_rank_irreflexive(a: Seq<Seq<char>>)
    ensures
        !rank_before(a, a),
    decreases a.len(),
{
    if a.len() > 0 {
        lemma_rank_irreflexive(a.skip(1));
    }
}

/// The order of lists of texts is transitive.
pub proof fn lemma_rank_transitive(a: Seq<Seq<char>>, b: Seq<Seq<char>>, c: Seq<Seq<char>>)
    requires
        rank_before(a, b),
        rank_before(b, c),
    ensures
        rank_before(a, c),
    decreases a.len(),
{
    if a.len() > 0 {
        if a[0] == b[0] && b[0] == c[0] {
            lemma_rank_transitive(a.skip(1), b.skip(1), c.skip(1));
        } else if a[0] != b[0] && b[0] != c[0] {
            lemma_before_transitive(a[0], b[0], c[0]);
            if a[0] == c[0] {
                lemma_before_irreflexive(a[0]);
            }
        }
    }
}

/// Different lists of texts come in one order or the other.
pub proof fn lemma_rank_total(a: Seq<Seq<char>>, b: Seq<Seq<char>>)
    ensures
        a == b || rank_before(a, b) || rank_before(b, a),
    decreases a.len(),
{
    if a.len() == 0 {
        if b.len() == 0 {
            assert(a =~= b);
        }
    } else if b.len() > 0 {
        if a[0] == b[0] {
            lemma_rank_total(a.skip(1), b.skip(1));
            if a.skip(1) == b.skip(1) {
                assert(a =~= seq![a[0]] + a.skip(1));
                assert(b =~= seq![b[0]] + b.skip(1));
            }
        } else {
            lemma_before_total(a[0], b[0]);
        }
    }
}

/// Where `a` is not after `b` and `b` not after `c`, `a` is not after `c`.
proof fn lemma_not_after_transitive(a: Seq<Seq<char>>, b: Seq<Seq<char>>, c: Seq<Seq<char>>)
    requires
        !rank_before(b, a),
        !rank_before(c, b),
    ensures
        !rank_before(c, a),
{
    lemma_rank_total(a, b);
    lemma_rank_total(b, c);
    if rank_before(c, a) {
        if a == b {
        } else if b == c {
        } else {
            lemma_rank_transitive(a, b, c);
            lemma_rank_transitive(a, c, a);
            lemma_rank_irreflexive(a);
        }
    }
}

/// Whether no value comes before an earlier one.
pub open spec fn in_order<T: HasRank>(s: Seq<T>) -> bool {
    forall|i: int, j: int|
        0 <= i <= j < s.len() ==> !rank_before((#[trigger] s[j]).rank(), (#[trigger] s[i]).rank())
}

proof fn lemma_inserted_in_order<T: HasRank>(s: Seq<T>, x: T)
    requires
        in_order(s),
    ensures
        in_order(inserted(s, x)),
        inserted(s, x).to_multiset() == s.to_multiset().insert(x),
        inserted(s, x).len() == s.len() + 1,
        forall|r: Seq<Seq<char>>|
            (forall|i: int| 0 <= i < s.len() ==> !rank_before(r, (#[trigger] s[i]).rank()))
                && !rank_before(r, x.rank()) ==> forall|i: int|
                0 <= i < inserted(s, x).len() ==> !rank_before(
                    r,
                    (#[trigger] inserted(s, x)[i]).rank(),
                ),
    decreases s.len(),
{
    broadcast use vstd::seq_lib::group_to_multiset_ensures;

    if s.len() == 0 || !rank_before(x.rank(), s.last().rank()) {
        let t = s.push(x);
        lemma_rank_irreflexive(x.rank());
        assert forall|i: int, j: int| 0 <= i <= j < t.len() implies !rank_before(
            (#[trigger] t[j]).rank(),
            (#[trigger] t[i]).rank(),
        ) by {
            if j < s.len() {
                assert(t[j] == s[j] && t[i] == s[i]);
            } else if i < s.len() {
                assert(!rank_before(s[s.len() - 1].rank(), s[i].rank()));
                lemma_not_after_transitive(s[i].rank(), s.last().rank(), x.rank());
            }
        }
    } else {
        let d = s.drop_last();
        let l = s.last();
        assert forall|i: int, j: int| 0 <= i <= j < d.len() implies !rank_before(
            (#[trigger] d[j]).rank(),
            (#[trigger] d[i]).rank(),
        ) by {
            assert(d[j] == s[j] && d[i] == s[i]);
        }
        lemma_inserted_in_order(d, x);
        let p = inserted(d, x);
        let t = p.push(l);
        assert(s =~= d.push(l));
        assert(forall|i: int| 0 <= i < d.len() ==> !rank_before(l.rank(), (#[trigger] d[i]).rank()))
            by {
            assert forall|i: int| 0 <= i < d.len() implies !rank_before(
                l.rank(),
                (#[trigger] d[i]).rank(),
            ) by {
                assert(d[i] == s[i]);
                assert(s[s.len() - 1] == l);
            }
        }
        assert(!rank_before(l.rank(), x.rank())) by {
            if rank_before(l.rank(), x.rank()) {
                lemma_rank_transitive(x.rank(), l.rank(), x.rank());
                lemma_rank_irreflexive(x.rank());
            }
        }
        lemma_rank_irreflexive(l.rank());
        assert forall|i: int, j: int| 0 <= i <= j < t.len() implies !rank_before(
            (#[trigger] t[j]).rank(),
            (#[trigger] t[i]).rank(),
        ) by {
            if j < p.len() {
                assert(t[j] == p[j] && t[i] == p[i]);
            } else if i < p.len() {
                assert(t[i] == p[i]);
            }
        }
        assert(t.to_multiset() =~= s.to_multiset().insert(x));
    }
}

/// Sorting loses nothing, adds nothing, and puts the values in order.
pub proof fn law_sorting<T: HasRank>(s: Seq<T>)
    ensures
        in_order(ranked(s)),
        ranked(s).to_multiset() == s.to_multiset(),
        ranked(s).len() == s.len(),
    decreases s.len(),
{
    broadcast use vstd::seq_lib::group_to_multiset_ensures;

    if s.len() > 0 {
        law_sorting(s.drop_last());
        lemma_inserted_in_order(ranked(s.drop_last()), s.last());
        assert(s =~= s.drop_last().push(s.last()));
        assert(ranked(s).to_multiset() =~= s.to_multiset());
    } else {
        assert(ranked(s) =~= s);
    }
}

/// Sorting keeps every value and adds none.
pub proof fn lemma_ranked_contains<T: HasRank>(s: Seq<T>, x: T)
    ensures
        ranked(s).contains(x) <==> s.contains(x),
{
    broadcast use vstd::seq_lib::group_to_multiset_ensures;

    law_sorting(s);
    assert(ranked(s).contains(x) <==> ranked(s).to_multiset().count(x) > 0);
    assert(s.contains(x) <==> s.to_multiset().count(x) > 0);
}

/// Texts in which none occurs twice are sorted so that each comes before the next.
pub proof fn law_distinct_texts_are_increasing(s: Seq<Seq<char>>)
    requires
        s.no_duplicates(),
    ensures
        forall|i: int, j: int|
            0 <= i < j < ranked(s).len() ==> before(#[trigger] ranked(s)[i], #[trigger] ranked(s)[j]),
{
    let r = ranked(s);
    law_sorting(s);
    s.lemma_multiset_has_no_duplicates();
    r.lemma_multiset_has_no_duplicates_conv();
    assert forall|i: int, j: int| 0 <= i < j < r.len() implies before(
        #[trigger] r[i],
        #[trigger] r[j],
    ) by {
        lemma_rank_one(r[j], r[i]);
        assert(!rank_before(r[j].rank(), r[i].rank()));
        lemma_before_total(r[i], r[j]);
    }
}

/// Texts are in the order of the first characters in which they differ, and a text comes before what it
/// begins.
pub proof fn law_first_difference_decides(p: Seq<char>, x: char, a: Seq<char>, y: char, b: Seq<char>)
    ensures
        x < y ==> before(p.push(x) + a, p.push(y) + b) && !before(p.push(y) + b, p.push(x) + a),
        before(p, p.push(x) + a) && !before(p.push(x) + a, p),
    decreases p.len(),
{
    let s = p.push(x) + a;
    let t = p.push(y) + b;
    if p.len() > 0 {
        let q = p.skip(1);
        law_first_difference_decides(q, x, a, y, b);
        assert(s.skip(1) =~= q.push(x) + a);
        assert(t.skip(1) =~= q.push(y) + b);
        assert(s[0] == p[0] && t[0] == p[0]);
    } else {
        assert(s[0] == x && t[0] == y);
    }
}

/// The first list of texts that is smaller in its first text comes first; where the first texts are the
/// same, the second ones decide.
pub proof fn law_first_text_decides(a: Seq<char>, b: Seq<char>, c: Seq<char>, d: Seq<char>)
    ensures
        before(a, c) ==> rank_before(seq![a, b], seq![c, d]),
        before(b, d) ==> rank_before(seq![a, b], seq![a, d]),
        !rank_before(seq![a, b], seq![a, b]),
{
    lemma_rank_two(a, b, c, d);
    lemma_rank_two(a, b, a, d);
    lemma_rank_two(a, b, a, b);
    lemma_before_irreflexive(a);
    lemma_before_irreflexive(b);
}

} // verus!
