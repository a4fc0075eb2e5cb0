//! Lexicographic order on strings and stable ordering of keyed records.
//!
//! `String`'s order compares UTF-8 bytes, which orders strings exactly as
//! their sequences of code points; `lex_lt` states that order on characters.
use vstd::prelude::*;

use crate::text::chars_of;

verus! {

broadcast use vstd::seq_lib::group_to_multiset_ensures;

/// `a` sorts strictly before `b`.
pub open spec fn lex_lt(a: Seq<char>, b: Seq<char>) -> bool
    decreases a.len(),
{
    if a.len() == 0 {
        b.len() > 0
    } else if b.len() == 0 {
        false
    } else if a[0] != b[0] {
        a[0] < b[0]
    } else {
        lex_lt(a.drop_first(), b.drop_first())
    }
}

/// `a` sorts before `b` or equals it.
pub open spec fn lex_le(a: Seq<char>, b: Seq<char>) -> bool {
    !lex_lt(b, a)
}

/// No string sorts before itself.
pub proof fn lemma_lex_irreflexive(a: Seq<char>)
    ensures
        !lex_lt(a, a),
    decreases a.len(),
{
    if a.len() > 0 {
        lemma_lex_irreflexive(a.drop_first());
    }
}

/// The strict order is transitive.
pub proof fn lemma_lex_transitive(a: Seq<char>, b: Seq<char>, c: Seq<char>)
    requires
        lex_lt(a, b),
        lex_lt(b, c),
    ensures
        lex_lt(a, c),
    decreases a.len(),
{
    if a.len() > 0 && b.len() > 0 && c.len() > 0 && a[0] == b[0] && b[0] == c[0] {
        lemma_lex_transitive(a.drop_first(), b.drop_first(), c.drop_first());
    }
}

/// Two different strings are ordered one way or the other.
pub proof fn lemma_lex_total(a: Seq<char>, b: Seq<char>)
    ensures
        a == b || lex_lt(a, b) || lex_lt(b, a),
    decreases a.len(),
{
    if a.len() > 0 && b.len() > 0 {
        if a[0] == b[0] {
            lemma_lex_total(a.drop_first(), b.drop_first());
            if a.drop_first() == b.drop_first() {
                assert(a =~= seq![a[0]] + a.drop_first());
                assert(b =~= seq![b[0]] + b.drop_first());
            }
        } else {
        }
    } else if a.len() == 0 && b.len() == 0 {
        assert(a =~= b);
    }
}

/// A strict step followed by a non-strict one stays strict.
pub proof fn lemma_lex_lt_le(a: Seq<char>, b: Seq<char>, c: Seq<char>)
    requires
        lex_lt(a, b),
        lex_le(b, c),
    ensures
        lex_lt(a, c),
{
    lemma_lex_total(b, c);
    if b != c {
        lemma_lex_transitive(a, b, c);
    }
}

/// `String::cmp(a, b) == Less`.
pub fn lex_less(a: &str, b: &str) -> (r: bool)
    ensures
        r == lex_lt(a@, b@),
{
    let x = chars_of(a);
    let y = chars_of(b);
    let mut i: usize = 0;
    assert(x@.skip(0) =~= x@);
    assert(y@.skip(0) =~= y@);
    while i < x.len() && i < y.len() && x[i] == y[i]
        invariant
            i <= x.len(),
            i <= y.len(),
            x@ == a@,
            y@ == b@,
            lex_lt(a@, b@) == lex_lt(x@.skip(i as int), y@.skip(i as int)),
        decreases x.len() - i,
    {
        assert(x@.skip(i as int).drop_first() =~= x@.skip(i + 1));
        assert(y@.skip(i as int).drop_first() =~= y@.skip(i + 1));
        i = i + 1;
    }
    if i == x.len() {
        i < y.len()
    } else if i == y.len() {
        false
    } else {
        assert(x@.skip(i as int)[0] == x@[i as int]);
        assert(y@.skip(i as int)[0] == y@[i as int]);
        x[i] < y[i]
    }
}

/// Records ordered by a string key.
pub trait Keyed {
    /// The key of a record.
    spec fn key_of(&self) -> Seq<char>;

    /// The key of a record.
    fn key(&self) -> (r: &str)
        ensures
            r@ == self.key_of(),
    ;
}

/// Keys never decrease along `s`.
pub open spec fn sorted_by_key<T: Keyed>(s: Seq<T>) -> bool {
    forall|i: int, j: int| 0 <= i < j < s.len() ==> lex_le(s[i].key_of(), s[j].key_of())
}

/// Where a stable insertion puts `x` into `s`: after the last record whose
/// key is not greater than `x`'s.
pub open spec fn insert_point<T: Keyed>(s: Seq<T>, x: T) -> int
    decreases s.len(),
{
    if s.len() == 0 {
        0
    } else if lex_lt(x.key_of(), s.last().key_of()) {
        insert_point(s.drop_last(), x)
    } else {
        s.len() as int
    }
}

/// The stable sort of `s` by key: records with equal keys keep their order.
pub open spec fn stable_sorted<T: Keyed>(s: Seq<T>) -> Seq<T>
    decreases s.len(),
{
    if s.len() == 0 {
        s
    } else {
        let t = stable_sorted(s.drop_last());
        t.insert(insert_point(t, s.last()), s.last())
    }
}

/// The position that keeps a sorted sequence sorted, with `x` after the
/// records of equal key, is the insertion point.
proof fn lemma_insert_point<T: Keyed>(t: Seq<T>, x: T, p: int)
    requires
        0 <= p <= t.len(),
        forall|k: int| 0 <= k < p ==> lex_le(#[trigger] t[k].key_of(), x.key_of()),
        forall|k: int| p <= k < t.len() ==> lex_lt(x.key_of(), #[trigger] t[k].key_of()),
    ensures
        insert_point(t, x) == p,
    decreases t.len(),
{
    if t.len() > 0 {
        let last = t.len() - 1;
        if lex_lt(x.key_of(), t.last().key_of()) {
            if p == t.len() {
                assert(lex_le(t[last].key_of(), x.key_of()));
            }
            let d = t.drop_last();
            assert forall|k: int| 0 <= k < p implies lex_le(#[trigger] d[k].key_of(), x.key_of()) by {
                assert(d[k] == t[k]);
            }
            assert forall|k: int| p <= k < d.len() implies lex_lt(x.key_of(), #[trigger] d[k].key_of()) by {
                assert(d[k] == t[k]);
            }
            lemma_insert_point(d, x, p);
        } else {
            if p < t.len() {
                assert(lex_lt(x.key_of(), t[last].key_of()));
            }
        }
    }
}

/// Inserts `x` after every record whose key is not greater than its own, as a
/// stable sort of the sequence with `x` appended would place it.
pub fn insert_by_key<T: Keyed>(v: &mut Vec<T>, x: T)
    requires
        sorted_by_key(old(v)@),
    ensures
        sorted_by_key(final(v)@),
        final(v)@.to_multiset() == old(v)@.to_multiset().insert(x),
        exists|p: int|
            0 <= p <= old(v)@.len() && final(v)@ == old(v)@.insert(p, x) && (forall|k: int|
                0 <= k < p ==> lex_le(#[trigger] old(v)@[k].key_of(), x.key_of())) && (forall|
                k: int,
            |
                p <= k < old(v)@.len() ==> lex_lt(x.key_of(), #[trigger] old(v)@[k].key_of())),
        final(v)@ == old(v)@.insert(insert_point(old(v)@, x), x),
{
    let ghost s = v@;
    let mut p: usize = 0;
    while p < v.len() && !lex_less(x.key(), v[p].key())
        invariant
            p <= v.len(),
            v@ == s,
            forall|k: int| 0 <= k < p ==> lex_le(#[trigger] s[k].key_of(), x.key_of()),
        decreases v.len() - p,
    {
        p = p + 1;
    }
    proof {
        assert forall|k: int| p <= k < s.len() implies lex_lt(x.key_of(), #[trigger] s[k].key_of()) by {
            if k > p {
                lemma_lex_lt_le(x.key_of(), s[p as int].key_of(), s[k].key_of());
            }
        }
    }
    let ghost xk = x.key_of();
    let ghost xv = x;
    proof {
        lemma_insert_point(s, x, p as int);
    }
    v.insert(p, x);
    proof {
        let t = v@;
        assert(t =~= s.insert(p as int, xv));
        s.insert_ensures(p as int, xv);
        assert forall|i: int, j: int| 0 <= i < j < t.len() implies lex_le(
            t[i].key_of(),
            t[j].key_of(),
        ) by {
            if j < p {
            } else if j == p {
            } else if i < p {
                assert(t[j] == s[j - 1]);
                assert(lex_le(s[i].key_of(), xk));
                assert(lex_lt(xk, s[j - 1].key_of()));
                if lex_lt(s[j - 1].key_of(), s[i].key_of()) {
                    lemma_lex_transitive(xk, s[j - 1].key_of(), s[i].key_of());
                }
            } else if i == p {
                assert(t[j] == s[j - 1]);
                lemma_lex_total(xk, s[j - 1].key_of());
                if lex_lt(s[j - 1].key_of(), xk) {
                    lemma_lex_transitive(xk, s[j - 1].key_of(), xk);
                    lemma_lex_irreflexive(xk);
                }
            } else {
                assert(t[i] == s[i - 1]);
                assert(t[j] == s[j - 1]);
            }
        }
        assert(t.remove(p as int) =~= s);
        assert(t[p as int] == xv);
        assert(t.to_multiset().remove(xv) =~= s.to_multiset());
        assert(t.to_multiset().count(xv) > 0) by {
            assert(t.contains(xv));
        }
        assert(t.to_multiset() =~= s.to_multiset().insert(xv));
    }
}

/// The records of `v` in key order; records with equal keys keep their order.
pub fn sort_by_key<T: Keyed>(v: Vec<T>) -> (out: Vec<T>)
    ensures
        sorted_by_key(out@),
        out@.to_multiset() == v@.to_multiset(),
        out@ == stable_sorted(v@),
{
    let mut v = v;
    let ghost orig = v@;
    let mut rev: Vec<T> = Vec::new();
    while v.len() > 0
        invariant
            orig =~= v@ + rev@.reverse(),
        decreases v.len(),
    {
        let x = v.pop().unwrap();
        let ghost before = rev@;
        rev.push(x);
        assert(rev@.reverse() =~= seq![x] + before.reverse());
    }
    let ghost items = rev@.reverse();
    assert(orig =~= items);
    let mut out: Vec<T> = Vec::new();
    let mut taken: usize = 0;
    let n = rev.len();
    while rev.len() > 0
        invariant
            sorted_by_key(out@),
            rev@.len() + taken == n,
            n == items.len(),
            rev@.reverse() == items.skip(taken as int),
            out@.to_multiset() == items.take(taken as int).to_multiset(),
            out@ == stable_sorted(items.take(taken as int)),
        decreases rev.len(),
    {
        let ghost r = rev@;
        let x = rev.pop().unwrap();
        proof {
            assert(items.skip(taken as int)[0] == r.reverse()[0]);
            assert(rev@ =~= r.drop_last());
            assert(r.drop_last().reverse() =~= r.reverse().drop_first());
            assert(items.skip(taken as int).drop_first() =~= items.skip(taken + 1));
            assert(rev@.reverse() =~= items.skip(taken + 1));
            assert(items.take(taken + 1) =~= items.take(taken as int).push(x));
        }
        insert_by_key(&mut out, x);
        proof {
            let t = items.take(taken + 1);
            assert(t.drop_last() =~= items.take(taken as int));
            assert(t.last() == x);
        }
        taken = taken + 1;
    }
    assert(items.take(n as int) =~= items);
    out
}

} // verus!
