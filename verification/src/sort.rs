//! Stable insertion sort and the lexicographic order of strings.
use crate::text::to_chars;
use vstd::prelude::*;

verus! {

/// Lexicographic order on character sequences. This is the order of `String`
/// (bytewise over UTF-8, which orders like code points).
pub open spec fn lex_le(a: Seq<char>, b: Seq<char>) -> bool
    decreases a.len(),
{
    if a.len() == 0 {
        true
    } else if b.len() == 0 {
        false
    } else if a[0] != b[0] {
        (a[0] as u32) < (b[0] as u32)
    } else {
        lex_le(a.drop_first(), b.drop_first())
    }
}

/// Lexicographic comparison of two character sequences.
pub fn lex_le_chars(a: &[char], b: &[char]) -> (r: bool)
    ensures
        r == lex_le(a@, b@),
{
    let mut i: usize = 0;
    proof {
        assert(a@.skip(0) =~= a@);
        assert(b@.skip(0) =~= b@);
    }
    while i < a.len() && i < b.len() && a[i] == b[i]
        invariant
            i <= a@.len(),
            i <= b@.len(),
            lex_le(a@, b@) == lex_le(a@.skip(i as int), b@.skip(i as int)),
        decreases a@.len() - i,
    {
        proof {
            assert(a@.skip(i as int).drop_first() =~= a@.skip(i + 1));
            assert(b@.skip(i as int).drop_first() =~= b@.skip(i + 1));
        }
        i = i + 1;
    }
    if i == a.len() {
        true
    } else if i == b.len() {
        false
    } else {
        (a[i] as u32) < (b[i] as u32)
    }
}

/// Lexicographic comparison of two strings.
pub fn str_le(a: &str, b: &str) -> (r: bool)
    ensures
        r == lex_le(a@, b@),
{
    let ac = to_chars(a);
    let bc = to_chars(b);
    lex_le_chars(ac.as_slice(), bc.as_slice())
}

/// Items that a stable sort orders by a key.
pub trait SortKey: Sized {
    /// `self` may stay before `other`.
    spec fn key_le(&self, other: &Self) -> bool;

    fn le(&self, other: &Self) -> (r: bool)
        ensures
            r == self.key_le(other);
}

/// `x` inserted after the last element of `s` that may precede it.
pub open spec fn insert_sorted<T>(s: Seq<T>, x: T, le: spec_fn(T, T) -> bool) -> Seq<T>
    decreases s.len(),
{
    if s.len() == 0 {
        seq![x]
    } else if le(s.last(), x) {
        s.push(x)
    } else {
        insert_sorted(s.drop_last(), x, le).push(s.last())
    }
}

/// Stable insertion sort of `s` by the order `le`.
pub open spec fn sorted_by<T>(s: Seq<T>, le: spec_fn(T, T) -> bool) -> Seq<T>
    decreases s.len(),
{
    if s.len() == 0 {
        s
    } else {
        insert_sorted(sorted_by(s.drop_last(), le), s.last(), le)
    }
}

/// The order of a `SortKey` type as a spec closure.
pub open spec fn key_order<T: SortKey>() -> spec_fn(T, T) -> bool {
    |a: T, b: T| a.key_le(&b)
}

proof fn lemma_insert_split<T>(s: Seq<T>, x: T, j: int, le: spec_fn(T, T) -> bool)
    requires
        0 < j <= s.len(),
        !le(s[j - 1], x),
    ensures
        insert_sorted(s.take(j), x, le) == insert_sorted(s.take(j - 1), x, le).push(s[j - 1]),
{
    assert(s.take(j).drop_last() =~= s.take(j - 1));
}

/// Sorting commutes with a map that preserves the order.
pub proof fn lemma_sorted_map<T, U>(
    s: Seq<T>,
    f: spec_fn(T) -> U,
    le: spec_fn(T, T) -> bool,
    leu: spec_fn(U, U) -> bool,
)
    requires
        forall|a: T, b: T| #[trigger] le(a, b) == leu(f(a), f(b)),
    ensures
        sorted_by(s, le).map_values(f) == sorted_by(s.map_values(f), leu),
    decreases s.len(),
{
    if s.len() > 0 {
        lemma_sorted_map(s.drop_last(), f, le, leu);
        assert(s.map_values(f).drop_last() =~= s.drop_last().map_values(f));
        lemma_insert_map(sorted_by(s.drop_last(), le), s.last(), f, le, leu);
    } else {
        assert(s.map_values(f) =~= Seq::<U>::empty());
    }
}

proof fn lemma_insert_map<T, U>(
    s: Seq<T>,
    x: T,
    f: spec_fn(T) -> U,
    le: spec_fn(T, T) -> bool,
    leu: spec_fn(U, U) -> bool,
)
    requires
        forall|a: T, b: T| #[trigger] le(a, b) == leu(f(a), f(b)),
    ensures
        insert_sorted(s, x, le).map_values(f) == insert_sorted(s.map_values(f), f(x), leu),
    decreases s.len(),
{
    if s.len() == 0 {
        assert(seq![x].map_values(f) =~= seq![f(x)]);
    } else {
        assert(s.map_values(f).last() == f(s.last()));
        assert(le(s.last(), x) == leu(f(s.last()), f(x)));
        if le(s.last(), x) {
            assert(s.push(x).map_values(f) =~= s.map_values(f).push(f(x)));
        } else {
            lemma_insert_map(s.drop_last(), x, f, le, leu);
            assert(s.map_values(f).drop_last() =~= s.drop_last().map_values(f));
            assert(insert_sorted(s.drop_last(), x, le).push(s.last()).map_values(f) =~= insert_sorted(
                s.drop_last(),
                x,
                le,
            ).map_values(f).push(f(s.last())));
        }
    }
}

/// Sorts `v` stably by the key order of its items.
pub fn stable_sort<T: SortKey>(v: Vec<T>) -> (r: Vec<T>)
    ensures
        r@ == sorted_by(v@, key_order::<T>()),
{
    let ghost orig = v@;
    let mut input = v;
    let mut out: Vec<T> = Vec::new();
    let mut n: usize = 0;
    assert(orig.len() == input.len());
    assert(orig.skip(0) =~= orig);
    assert(orig.take(0) =~= Seq::<T>::empty());
    while input.len() > 0
        invariant
            orig.len() <= usize::MAX,
            n + input@.len() == orig.len(),
            input@ == orig.skip(n as int),
            out@ == sorted_by(orig.take(n as int), key_order::<T>()),
        decreases input@.len(),
    {
        let x = input.remove(0);
        let ghost xs = x;
        let mut j: usize = out.len();
        proof {
            assert(out@.take(j as int) =~= out@);
            assert(out@.subrange(j as int, out@.len() as int) =~= Seq::<T>::empty());
            assert(insert_sorted(out@, x, key_order::<T>()) + Seq::<T>::empty() =~= insert_sorted(out@, x, key_order::<T>()));
        }
        while j > 0 && !out[j - 1].le(&x)
            invariant
                j <= out@.len(),
                insert_sorted(out@, x, key_order::<T>()) == insert_sorted(out@.take(j as int), x, key_order::<T>()) + out@.subrange(
                    j as int,
                    out@.len() as int,
                ),
            decreases j,
        {
            proof {
                lemma_insert_split(out@, x, j as int, key_order::<T>());
                assert(out@.subrange(j - 1, out@.len() as int) =~= seq![out@[j - 1]] + out@.subrange(
                    j as int,
                    out@.len() as int,
                ));
                assert(insert_sorted(out@.take(j - 1), x, key_order::<T>()).push(out@[j - 1]) + out@.subrange(
                    j as int,
                    out@.len() as int,
                ) =~= insert_sorted(out@.take(j - 1), x, key_order::<T>()) + out@.subrange(j - 1, out@.len() as int));
            }
            j = j - 1;
        }
        proof {
            if j == 0 {
                assert(out@.take(0) =~= Seq::<T>::empty());
            } else {
                assert(out@.take(j as int).last() == out@[j - 1]);
            }
            assert(orig.take(n + 1).drop_last() =~= orig.take(n as int));
            assert(orig.take(n + 1).last() == x);
        }
        let ghost before = out@;
        out.insert(j, x);
        proof {
            assert(out@ =~= insert_sorted(before.take(j as int), x, key_order::<T>()) + before.subrange(
                j as int,
                before.len() as int,
            ));
            assert(orig.skip(n + 1) =~= orig.skip(n as int).drop_first());
        }
        n = n + 1;
    }
    proof {
        assert(orig.take(n as int) =~= orig);
    }
    out
}

} // verus!

verus! {

// ---------------------------------------------------------------------------
// Properties of the orders and of the sort

proof fn lemma_char_u32(c: char, d: char)
    ensures
        c != d ==> (c as u32) != (d as u32),
{
    assert(0 <= c as int <= 0x10FFFF);
    assert(0 <= d as int <= 0x10FFFF);
}

/// `lex_le` relates any two sequences one way or the other.
pub proof fn lemma_lex_total(a: Seq<char>, b: Seq<char>)
    ensures
        lex_le(a, b) || lex_le(b, a),
    decreases a.len(),
{
    if a.len() > 0 && b.len() > 0 {
        if a[0] == b[0] {
            lemma_lex_total(a.drop_first(), b.drop_first());
        } else {
            lemma_char_u32(a[0], b[0]);
        }
    }
}

/// `lex_le` is transitive.
pub proof fn lemma_lex_transitive(a: Seq<char>, b: Seq<char>, c: Seq<char>)
    requires
        lex_le(a, b),
        lex_le(b, c),
    ensures
        lex_le(a, c),
    decreases a.len(),
{
    if a.len() > 0 && b.len() > 0 && c.len() > 0 && a[0] == b[0] && b[0] == c[0] {
        lemma_lex_transitive(a.drop_first(), b.drop_first(), c.drop_first());
    }
}

/// `lex_le` both ways only between equal sequences.
pub proof fn lemma_lex_antisymmetric(a: Seq<char>, b: Seq<char>)
    requires
        lex_le(a, b),
        lex_le(b, a),
    ensures
        a == b,
    decreases a.len(),
{
    if a.len() > 0 && b.len() > 0 {
        lemma_lex_antisymmetric(a.drop_first(), b.drop_first());
        assert(a =~= seq![a[0]] + a.drop_first());
        assert(b =~= seq![b[0]] + b.drop_first());
    }
}

/// Every two elements come in the order `le`.
pub open spec fn is_sorted<T>(s: Seq<T>, le: spec_fn(T, T) -> bool) -> bool {
    forall|i: int, j: int| 0 <= i < j < s.len() ==> le(#[trigger] s[i], #[trigger] s[j])
}

/// `le` is total and transitive.
pub open spec fn total_preorder<T>(le: spec_fn(T, T) -> bool) -> bool {
    &&& forall|a: T, b: T| #[trigger] le(a, b) || le(b, a)
    &&& forall|a: T, b: T, c: T| #[trigger] le(a, b) && #[trigger] le(b, c) ==> le(a, c)
}

proof fn lemma_insert_multiset<T>(s: Seq<T>, x: T, le: spec_fn(T, T) -> bool)
    ensures
        insert_sorted(s, x, le).to_multiset() == s.to_multiset().insert(x),
    decreases s.len(),
{
    broadcast use vstd::seq_lib::group_to_multiset_ensures;

    if s.len() == 0 {
        assert(seq![x] =~= s.push(x));
    } else if le(s.last(), x) {
    } else {
        lemma_insert_multiset(s.drop_last(), x, le);
        assert(s =~= s.drop_last().push(s.last()));
        assert(insert_sorted(s, x, le).to_multiset() =~= s.to_multiset().insert(x));
    }
}

/// Sorting keeps the elements.
pub proof fn lemma_sorted_multiset<T>(s: Seq<T>, le: spec_fn(T, T) -> bool)
    ensures
        sorted_by(s, le).to_multiset() == s.to_multiset(),
    decreases s.len(),
{
    broadcast use vstd::seq_lib::group_to_multiset_ensures;

    if s.len() > 0 {
        lemma_sorted_multiset(s.drop_last(), le);
        lemma_insert_multiset(sorted_by(s.drop_last(), le), s.last(), le);
        assert(s =~= s.drop_last().push(s.last()));
    }
}

proof fn lemma_insert_keeps_sorted<T>(s: Seq<T>, x: T, le: spec_fn(T, T) -> bool)
    requires
        total_preorder(le),
        is_sorted(s, le),
    ensures
        is_sorted(insert_sorted(s, x, le), le),
    decreases s.len(),
{
    broadcast use vstd::seq_lib::group_to_multiset_ensures;

    let r = insert_sorted(s, x, le);
    if s.len() == 0 {
    } else if le(s.last(), x) {
        assert forall|i: int, j: int| 0 <= i < j < r.len() implies le(#[trigger] r[i], #[trigger] r[j]) by {
            if j == s.len() {
                if i < s.len() - 1 {
                    assert(le(s[i], s[s.len() - 1]));
                }
            } else {
                assert(r[i] == s[i] && r[j] == s[j]);
            }
        }
    } else {
        let d = s.drop_last();
        let t = insert_sorted(d, x, le);
        lemma_insert_keeps_sorted(d, x, le);
        lemma_insert_multiset(d, x, le);
        assert(r == t.push(s.last()));
        assert(le(x, s.last()));
        assert forall|i: int, j: int| 0 <= i < j < r.len() implies le(#[trigger] r[i], #[trigger] r[j]) by {
            if j == t.len() {
                let e = t[i];
                assert(t.contains(e));
                assert(t.to_multiset().count(e) > 0);
                if e != x {
                    assert(d.to_multiset().count(e) > 0);
                    assert(d.contains(e));
                    let k = choose|k: int| 0 <= k < d.len() && d[k] == e;
                    assert(le(s[k], s[s.len() - 1]));
                }
            } else {
                assert(r[i] == t[i] && r[j] == t[j]);
            }
        }
    }
}

/// Sorting by a total preorder gives a sorted sequence.
pub proof fn lemma_sorted_by_is_sorted<T>(s: Seq<T>, le: spec_fn(T, T) -> bool)
    requires
        total_preorder(le),
    ensures
        is_sorted(sorted_by(s, le), le),
    decreases s.len(),
{
    if s.len() > 0 {
        lemma_sorted_by_is_sorted(s.drop_last(), le);
        lemma_insert_keeps_sorted(sorted_by(s.drop_last(), le), s.last(), le);
    }
}

/// Two sorted sequences with the same elements are equal, where elements
/// that the order cannot tell apart are equal.
pub proof fn lemma_sorted_unique<T>(a: Seq<T>, b: Seq<T>, le: spec_fn(T, T) -> bool)
    requires
        is_sorted(a, le),
        is_sorted(b, le),
        a.to_multiset() == b.to_multiset(),
        forall|x: T, y: T| a.contains(x) && a.contains(y) && le(x, y) && le(y, x) ==> x == y,
    ensures
        a == b,
    decreases a.len(),
{
    broadcast use vstd::seq_lib::group_to_multiset_ensures;

    vstd::seq_lib::to_multiset_len(a);
    vstd::seq_lib::to_multiset_len(b);
    assert(a.len() == b.len());
    if a.len() > 0 {
        let n = a.len() - 1;
        let la = a[n];
        let lb = b[n];
        assert(a.contains(la));
        assert(a.to_multiset().count(la) > 0);
        assert(b.contains(la));
        let kb = choose|k: int| 0 <= k < b.len() && b[k] == la;
        if kb < n {
            assert(le(b[kb], b[n]));
        }
        assert(b.contains(lb));
        assert(b.to_multiset().count(lb) > 0);
        assert(a.contains(lb));
        let ka = choose|k: int| 0 <= k < a.len() && a[k] == lb;
        if ka < n {
            assert(le(a[ka], a[n]));
        }
        assert(la == lb);
        let da = a.drop_last();
        let db = b.drop_last();
        assert(da =~= a.remove(n));
        assert(db =~= b.remove(n));
        assert forall|x: T, y: T| da.contains(x) && da.contains(y) && le(x, y) && le(y, x) implies x == y by {
            let i = choose|i: int| 0 <= i < da.len() && da[i] == x;
            let j = choose|j: int| 0 <= j < da.len() && da[j] == y;
            assert(a[i] == x && a[j] == y);
            assert(a.contains(x) && a.contains(y));
        }
        assert forall|i: int, j: int| 0 <= i < j < da.len() implies le(#[trigger] da[i], #[trigger] da[j]) by {
            assert(da[i] == a[i] && da[j] == a[j]);
        }
        assert forall|i: int, j: int| 0 <= i < j < db.len() implies le(#[trigger] db[i], #[trigger] db[j]) by {
            assert(db[i] == b[i] && db[j] == b[j]);
        }
        lemma_sorted_unique(da, db, le);
        assert(a =~= da.push(la));
        assert(b =~= db.push(lb));
    }
}

} // verus!
