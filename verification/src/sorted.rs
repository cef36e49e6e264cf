//! Sets of strings kept as strictly increasing sequences, ordered as
//! `String`'s `Ord` orders them (by code point, character by character).
use vstd::prelude::*;

verus! {

/// `a < b` in the lexicographic order of strings.
pub open spec fn lex_lt(a: Seq<char>, b: Seq<char>) -> bool
    decreases a.len(),
{
    if a.len() == 0 {
        b.len() > 0
    } else if b.len() == 0 {
        false
    } else if a[0] != b[0] {
        a[0] < b[0]
    } else {
        lex_lt(a.drop_first(), b.drop_first())
    }
}

pub proof fn lemma_lex_irreflexive(a: Seq<char>)
    ensures
        !lex_lt(a, a),
    decreases a.len(),
{
    if a.len() > 0 {
        lemma_lex_irreflexive(a.drop_first());
    }
}

pub proof fn lemma_lex_total(a: Seq<char>, b: Seq<char>)
    ensures
        a =~= b || lex_lt(a, b) || lex_lt(b, a),
    decreases a.len(),
{
    if a.len() > 0 && b.len() > 0 && a[0] == b[0] {
        lemma_lex_total(a.drop_first(), b.drop_first());
        if a.drop_first() =~= b.drop_first() {
            assert(a =~= seq![a[0]] + a.drop_first());
            assert(b =~= seq![b[0]] + b.drop_first());
        }
    }
    if a.len() > 0 && b.len() > 0 && a[0] != b[0] {
    }
}

pub proof fn lemma_lex_asymmetric(a: Seq<char>, b: Seq<char>)
    ensures
        lex_lt(a, b) ==> !lex_lt(b, a),
    decreases a.len(),
{
    if a.len() > 0 && b.len() > 0 && a[0] == b[0] {
        lemma_lex_asymmetric(a.drop_first(), b.drop_first());
    }
}

pub proof fn lemma_lex_transitive(a: Seq<char>, b: Seq<char>, c: Seq<char>)
    requires
        lex_lt(a, b),
        lex_lt(b, c),
    ensures
        lex_lt(a, c),
    decreases a.len(),
{
    if a.len() > 0 && b.len() > 0 && c.len() > 0 && a[0] == b[0] && b[0] == c[0] {
        lemma_lex_transitive(a.drop_first(), b.drop_first(), c.drop_first());
    }
}

/// Strictly increasing: sorted with no element twice.
pub open spec fn strictly_sorted(s: Seq<Seq<char>>) -> bool {
    forall|i: int, j: int| 0 <= i < j < s.len() ==> lex_lt(#[trigger] s[i], #[trigger] s[j])
}

/// The order of two strings (`Ord::cmp` on `String`), as -1, 0 or 1.
pub fn compare_strs(a: &str, b: &str) -> (r: i8)
    ensures
        r == 0 <==> a@ == b@,
        r < 0 <==> lex_lt(a@, b@),
        r > 0 <==> lex_lt(b@, a@),
{
    let x = crate::text::chars_of(a);
    let y = crate::text::chars_of(b);
    let mut i: usize = 0;
    assert(a@.skip(0) =~= a@);
    assert(b@.skip(0) =~= b@);
    while i < x.len() && i < y.len() && x[i] == y[i]
        invariant
            0 <= i <= x@.len(),
            i <= y@.len(),
            x@ == a@,
            y@ == b@,
            forall|k: int| 0 <= k < i ==> x@[k] == y@[k],
            lex_lt(a@, b@) == lex_lt(a@.skip(i as int), b@.skip(i as int)),
            lex_lt(b@, a@) == lex_lt(b@.skip(i as int), a@.skip(i as int)),
        decreases x.len() - i,
    {
        assert(a@.skip(i as int).drop_first() =~= a@.skip(i + 1));
        assert(b@.skip(i as int).drop_first() =~= b@.skip(i + 1));
        i = i + 1;
    }
    if i == x.len() && i == y.len() {
        assert(a@ =~= b@);
        proof {
            lemma_lex_irreflexive(a@);
        }
        return 0;
    }
    proof {
        lemma_lex_asymmetric(a@, b@);
    }
    if i == x.len() {
        assert(a@.skip(i as int).len() == 0);
        assert(a@ != b@) by {
            assert(a@.len() != b@.len());
        }
        return -1;
    }
    if i == y.len() {
        assert(b@.skip(i as int).len() == 0);
        assert(a@.len() != b@.len());
        return 1;
    }
    assert(a@[i as int] != b@[i as int]);
    assert(a@ != b@);
    if x[i] < y[i] {
        -1
    } else {
        1
    }
}

/// `s` with `x` added at its place in increasing order (unchanged when
/// `x` is already there).
pub open spec fn sorted_insert(s: Seq<Seq<char>>, x: Seq<char>) -> Seq<Seq<char>>
    decreases s.len(),
{
    if s.len() == 0 {
        seq![x]
    } else if s[0] == x {
        s
    } else if lex_lt(x, s[0]) {
        seq![x] + s
    } else {
        seq![s[0]] + sorted_insert(s.drop_first(), x)
    }
}

/// Adds `x` to the strictly increasing `v`, keeping it strictly increasing.
pub fn insert_sorted(v: &mut Vec<String>, x: String)
    requires
        strictly_sorted(crate::text::views(old(v)@)),
    ensures
        strictly_sorted(crate::text::views(final(v)@)),
        crate::text::views(final(v)@).to_set() == crate::text::views(old(v)@).to_set().insert(x@),
        crate::text::views(final(v)@) == sorted_insert(crate::text::views(old(v)@), x@),
{
    let ghost s0 = crate::text::views(v@);
    let mut i: usize = 0;
    assert(s0.take(0) + s0.skip(0) =~= s0);
    while i < v.len()
        invariant
            0 <= i <= v@.len(),
            v@ == old(v)@,
            s0 == crate::text::views(v@),
            strictly_sorted(s0),
            forall|k: int| 0 <= k < i ==> lex_lt(#[trigger] s0[k], x@),
            sorted_insert(s0, x@) == s0.take(i as int) + sorted_insert(s0.skip(i as int), x@),
        ensures
            sorted_insert(s0, x@) == s0.take(i as int) + sorted_insert(s0.skip(i as int), x@),
            0 <= i <= v@.len(),
            v@ == old(v)@,
            forall|k: int| 0 <= k < i ==> lex_lt(#[trigger] s0[k], x@),
            i < v@.len() ==> lex_lt(x@, s0[i as int]),
        decreases v.len() - i,
    {
        let c = compare_strs(v[i].as_str(), x.as_str());
        assert(s0.skip(i as int)[0] == s0[i as int]);
        if c == 0 {
            assert(s0[i as int] == x@);
            assert(s0.take(i as int) + s0.skip(i as int) =~= s0);
            assert(s0.to_set().insert(x@) =~= s0.to_set()) by {
                assert(s0.to_set().contains(s0[i as int]));
            }
            return;
        }
        if c > 0 {
            break;
        }
        proof {
            lemma_lex_asymmetric(s0[i as int], x@);
            assert(s0.skip(i as int).drop_first() =~= s0.skip(i + 1));
            assert(s0.take(i as int) + seq![s0[i as int]] =~= s0.take(i + 1));
        }
        i = i + 1;
    }
    let ghost xv = x@;
    v.insert(i, x);
    let ghost s1 = crate::text::views(v@);
    assert(s1 =~= s0.insert(i as int, xv));
    assert(s1 =~= sorted_insert(s0, xv)) by {
        if i < s0.len() {
            assert(s0.skip(i as int)[0] == s0[i as int]);
            assert(s0[i as int] != xv) by {
                lemma_lex_irreflexive(xv);
            }
            assert(sorted_insert(s0.skip(i as int), xv) == seq![xv] + s0.skip(i as int));
        }
    }
    assert forall|p: int, q: int| 0 <= p < q < s1.len() implies lex_lt(#[trigger] s1[p], #[trigger] s1[q]) by {
        if q < i {
        } else if q == i {
        } else if p < i {
            if i < s0.len() {
                if q - 1 > i {
                    lemma_lex_transitive(s0[p], xv, s0[i as int]);
                    lemma_lex_transitive(s0[p], s0[i as int], s0[q - 1]);
                } else {
                    lemma_lex_transitive(s0[p], xv, s0[i as int]);
                }
            }
        } else if p == i {
            if q - 1 > i {
                lemma_lex_transitive(xv, s0[i as int], s0[q - 1]);
            } else {
            }
        } else {
        }
    }
    assert(s1.to_set() =~= s0.to_set().insert(xv)) by {
        assert forall|e: Seq<char>| s1.to_set().contains(e) implies s0.to_set().insert(xv).contains(e) by {
            let k = choose|k: int| 0 <= k < s1.len() && s1[k] == e;
            if k < i {
                assert(s0[k] == e);
            } else if k > i {
                assert(s0[k - 1] == e);
            }
        }
        assert forall|e: Seq<char>| s0.to_set().insert(xv).contains(e) implies s1.to_set().contains(e) by {
            if e == xv {
                assert(s1[i as int] == e);
            } else {
                let k = choose|k: int| 0 <= k < s0.len() && s0[k] == e;
                if k < i {
                    assert(s1[k] == e);
                } else {
                    assert(s1[k + 1] == e);
                }
            }
        }
    }
}

/// Inserting into a strictly increasing sequence keeps it strictly
/// increasing and adds exactly the new element.
pub proof fn lemma_sorted_insert(s: Seq<Seq<char>>, x: Seq<char>)
    requires
        strictly_sorted(s),
    ensures
        strictly_sorted(sorted_insert(s, x)),
        sorted_insert(s, x).to_set() == s.to_set().insert(x),
    decreases s.len(),
{
    let r = sorted_insert(s, x);
    if s.len() == 0 {
        assert(r.to_set() =~= s.to_set().insert(x)) by {
            assert(r[0] == x);
        }
    } else if s[0] == x {
        assert(s.to_set().insert(x) =~= s.to_set()) by {
            assert(s.to_set().contains(s[0]));
        }
    } else if lex_lt(x, s[0]) {
        assert forall|i: int, j: int| 0 <= i < j < r.len() implies lex_lt(#[trigger] r[i], #[trigger] r[j]) by {
            if i == 0 {
                assert(r[j] == s[j - 1]);
                if j - 1 > 0 {
                    lemma_lex_transitive(x, s[0], s[j - 1]);
                }
            } else {
                assert(r[i] == s[i - 1] && r[j] == s[j - 1]);
            }
        }
        assert(r.to_set() =~= s.to_set().insert(x)) by {
            assert forall|e: Seq<char>| r.to_set().contains(e) implies s.to_set().insert(x).contains(e) by {
                let k = choose|k: int| 0 <= k < r.len() && r[k] == e;
                if k > 0 {
                    assert(s[k - 1] == e);
                }
            }
            assert forall|e: Seq<char>| s.to_set().insert(x).contains(e) implies r.to_set().contains(e) by {
                if e == x {
                    assert(r[0] == e);
                } else {
                    let k = choose|k: int| 0 <= k < s.len() && s[k] == e;
                    assert(r[k + 1] == e);
                }
            }
        }
    } else {
        let t = s.drop_first();
        let u = sorted_insert(t, x);
        lemma_sorted_insert(t, x);
        lemma_lex_total(s[0], x);
        assert(lex_lt(s[0], x));
        assert(r == seq![s[0]] + u);
        assert forall|j: int| 0 <= j < u.len() implies lex_lt(s[0], #[trigger] u[j]) by {
            assert(u.to_set().contains(u[j]));
            if u[j] != x {
                assert(t.to_set().contains(u[j]));
                let k = choose|k: int| 0 <= k < t.len() && t[k] == u[j];
                assert(s[k + 1] == t[k]);
            }
        }
        assert forall|i: int, j: int| 0 <= i < j < r.len() implies lex_lt(#[trigger] r[i], #[trigger] r[j]) by {
            if i == 0 {
                assert(r[j] == u[j - 1]);
            } else {
                assert(r[i] == u[i - 1] && r[j] == u[j - 1]);
            }
        }
        assert(r.to_set() =~= s.to_set().insert(x)) by {
            assert forall|e: Seq<char>| r.to_set().contains(e) implies s.to_set().insert(x).contains(e) by {
                let k = choose|k: int| 0 <= k < r.len() && r[k] == e;
                if k > 0 {
                    assert(u[k - 1] == e);
                    assert(u.to_set().contains(e));
                    if e != x {
                        let m = choose|m: int| 0 <= m < t.len() && t[m] == e;
                        assert(s[m + 1] == e);
                    }
                } else {
                    assert(s[0] == e);
                }
            }
            assert forall|e: Seq<char>| s.to_set().insert(x).contains(e) implies r.to_set().contains(e) by {
                if e == x || e != s[0] {
                    if e != x {
                        let k = choose|k: int| 0 <= k < s.len() && s[k] == e;
                        assert(k > 0);
                        assert(t[k - 1] == e);
                        assert(t.to_set().contains(e));
                    }
                    assert(u.to_set().contains(e));
                    let m = choose|m: int| 0 <= m < u.len() && u[m] == e;
                    assert(r[m + 1] == e);
                } else {
                    assert(r[0] == e);
                }
            }
        }
    }
}

/// Two strictly increasing sequences with the same elements are equal: a
/// set has one strictly increasing listing.
pub proof fn lemma_strictly_sorted_unique(s: Seq<Seq<char>>, t: Seq<Seq<char>>)
    requires
        strictly_sorted(s),
        strictly_sorted(t),
        s.to_set() == t.to_set(),
    ensures
        s == t,
    decreases s.len(),
{
    if s.len() == 0 || t.len() == 0 {
        if s.len() > 0 {
            assert(s.to_set().contains(s[0]));
        }
        if t.len() > 0 {
            assert(t.to_set().contains(t[0]));
        }
        assert(s =~= t);
    } else {
        assert(t.to_set().contains(s[0]));
        assert(s.to_set().contains(t[0]));
        let k = choose|k: int| 0 <= k < t.len() && t[k] == s[0];
        let m = choose|m: int| 0 <= m < s.len() && s[m] == t[0];
        if k > 0 {
            assert(lex_lt(t[0], s[0]));
            if m > 0 {
                assert(lex_lt(s[0], t[0]));
                lemma_lex_asymmetric(s[0], t[0]);
            } else {
                lemma_lex_irreflexive(s[0]);
            }
        }
        assert(s[0] == t[0]);
        let s1 = s.drop_first();
        let t1 = t.drop_first();
        assert(s1.to_set() =~= t1.to_set()) by {
            assert forall|e: Seq<char>| s1.to_set().contains(e) implies t1.to_set().contains(e) by {
                let a = choose|a: int| 0 <= a < s1.len() && s1[a] == e;
                assert(s[a + 1] == e);
                assert(lex_lt(s[0], e));
                lemma_lex_irreflexive(e);
                assert(t.to_set().contains(e));
                let b = choose|b: int| 0 <= b < t.len() && t[b] == e;
                assert(b > 0);
                assert(t1[b - 1] == e);
            }
            assert forall|e: Seq<char>| t1.to_set().contains(e) implies s1.to_set().contains(e) by {
                let a = choose|a: int| 0 <= a < t1.len() && t1[a] == e;
                assert(t[a + 1] == e);
                assert(lex_lt(t[0], e));
                lemma_lex_irreflexive(e);
                assert(s.to_set().contains(e));
                let b = choose|b: int| 0 <= b < s.len() && s[b] == e;
                assert(b > 0);
                assert(s1[b - 1] == e);
            }
        }
        assert forall|i: int, j: int| 0 <= i < j < s1.len() implies lex_lt(#[trigger] s1[i], #[trigger] s1[j]) by {
            assert(s1[i] == s[i + 1] && s1[j] == s[j + 1]);
        }
        assert forall|i: int, j: int| 0 <= i < j < t1.len() implies lex_lt(#[trigger] t1[i], #[trigger] t1[j]) by {
            assert(t1[i] == t[i + 1] && t1[j] == t[j + 1]);
        }
        lemma_strictly_sorted_unique(s1, t1);
        assert(s =~= seq![s[0]] + s1);
        assert(t =~= seq![t[0]] + t1);
    }
}

} // verus!
