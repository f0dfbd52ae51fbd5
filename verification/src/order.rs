//! Ordering values by a text key: the lexicographic order of strings and a
//! stable sort by it.
use vstd::prelude::*;
use crate::text::chars_of;

verus! {

/// `a` comes before `b` in the order of `String::cmp`: lexicographic by
/// UTF-8 bytes, which is lexicographic by code points.
pub open spec fn text_lt(a: Seq<char>, b: Seq<char>) -> bool
    decreases a.len(),
{
    if a.len() == 0 {
        b.len() > 0
    } else if b.len() == 0 {
        false
    } else if (a[0] as int) < (b[0] as int) {
        true
    } else if (a[0] as int) > (b[0] as int) {
        false
    } else {
        text_lt(a.drop_first(), b.drop_first())
    }
}

/// Whether `a` comes before `b`.
pub fn text_lt_exec(a: &[char], b: &[char]) -> (r: bool)
    ensures
        r == text_lt(a@, b@),
{
    let mut i: usize = 0;
    assert(a@.skip(0) =~= a@);
    assert(b@.skip(0) =~= b@);
    while i < a.len() && i < b.len() && a[i] == b[i]
        invariant
            i <= a@.len(),
            i <= b@.len(),
            text_lt(a@, b@) == text_lt(a@.skip(i as int), b@.skip(i as int)),
        decreases a@.len() - i,
    {
        assert(a@.skip(i as int).drop_first() =~= a@.skip(i + 1));
        assert(b@.skip(i as int).drop_first() =~= b@.skip(i + 1));
        i = i + 1;
    }
    if i == a.len() {
        i < b.len()
    } else if i == b.len() {
        false
    } else {
        assert(a@.skip(i as int)[0] == a@[i as int]);
        assert(b@.skip(i as int)[0] == b@[i as int]);
        a[i] < b[i]
    }
}

/// Nothing comes before itself.
pub proof fn lemma_text_lt_irreflexive(a: Seq<char>)
    ensures
        !text_lt(a, a),
    decreases a.len(),
{
    if a.len() > 0 {
        lemma_text_lt_irreflexive(a.drop_first());
    }
}

/// The order is transitive.
pub proof fn lemma_text_lt_transitive(a: Seq<char>, b: Seq<char>, c: Seq<char>)
    requires
        text_lt(a, b),
        text_lt(b, c),
    ensures
        text_lt(a, c),
    decreases a.len(),
{
    if a.len() > 0 && b.len() > 0 && c.len() > 0 && a[0] == b[0] && b[0] == c[0] {
        lemma_text_lt_transitive(a.drop_first(), b.drop_first(), c.drop_first());
    }
}

/// Of two different texts, one comes before the other.
pub proof fn lemma_text_lt_total(a: Seq<char>, b: Seq<char>)
    requires
        a != b,
    ensures
        text_lt(a, b) || text_lt(b, a),
    decreases a.len(),
{
    if a.len() > 0 && b.len() > 0 && a[0] == b[0] {
        if a.drop_first() == b.drop_first() {
            assert(a =~= seq![a[0]] + a.drop_first());
            assert(b =~= seq![b[0]] + b.drop_first());
        }
        lemma_text_lt_total(a.drop_first(), b.drop_first());
    } else if a.len() > 0 && b.len() > 0 {
        assert((a[0] as int) != (b[0] as int));
    } else if a.len() == 0 && b.len() == 0 {
        assert(a =~= b);
    }
}

/// Values in an order that a sort keeps stable: `precedes(a, b)` when `a`
/// must come before `b`; values where neither precedes the other are
/// equivalent and keep their order.
pub trait SortKey: Sized + View {
    /// A value with view `a` must come before one with view `b`.
    spec fn precedes(a: Self::V, b: Self::V) -> bool;

    /// Whether this value must come before `other`.
    fn precedes_exec(&self, other: &Self) -> (r: bool)
        ensures
            r == Self::precedes(self@, other@),
    ;

    /// The order is a strict weak order.
    proof fn lemma_strict_weak_order(a: Self::V, b: Self::V, c: Self::V)
        ensures
            !Self::precedes(a, a),
            Self::precedes(a, b) && Self::precedes(b, c) ==> Self::precedes(a, c),
            !Self::precedes(a, b) && !Self::precedes(b, a) && Self::precedes(c, a) ==> Self::precedes(
                c,
                b,
            ),
    ;
}

/// Text keys precede in the order of `String::cmp`.
pub proof fn lemma_text_order(a: Seq<char>, b: Seq<char>, c: Seq<char>)
    ensures
        !text_lt(a, a),
        text_lt(a, b) && text_lt(b, c) ==> text_lt(a, c),
        !text_lt(a, b) && !text_lt(b, a) && text_lt(c, a) ==> text_lt(c, b),
{
    lemma_text_lt_irreflexive(a);
    if text_lt(a, b) && text_lt(b, c) {
        lemma_text_lt_transitive(a, b, c);
    }
    if !text_lt(a, b) && !text_lt(b, a) && a != b {
        lemma_text_lt_total(a, b);
    }
}

impl SortKey for String {
    open spec fn precedes(a: Seq<char>, b: Seq<char>) -> bool {
        text_lt(a, b)
    }

    fn precedes_exec(&self, other: &Self) -> (r: bool) {
        let a = chars_of(self.as_str());
        let b = chars_of(other.as_str());
        text_lt_exec(a.as_slice(), b.as_slice())
    }

    proof fn lemma_strict_weak_order(a: Seq<char>, b: Seq<char>, c: Seq<char>) {
        lemma_text_order(a, b, c);
    }
}

/// The views of a sequence of values.
pub open spec fn views_of<T: View>(s: Seq<T>) -> Seq<T::V> {
    s.map_values(|x: T| x@)
}

/// `s`, sorted by key, with `x` put after every element whose key is not
/// greater than its own.
pub open spec fn insert_by_key<T: SortKey>(s: Seq<T::V>, x: T::V) -> Seq<T::V>
    decreases s.len(),
{
    if s.len() > 0 && T::precedes(x, s.last()) {
        insert_by_key::<T>(s.drop_last(), x).push(s.last())
    } else {
        s.push(x)
    }
}

/// `s` sorted by key, elements with equal keys kept in their order, as
/// `sort_by` with a comparison of the keys sorts it.
pub open spec fn sort_by_key<T: SortKey>(s: Seq<T::V>) -> Seq<T::V>
    decreases s.len(),
{
    if s.len() == 0 {
        s
    } else {
        insert_by_key::<T>(sort_by_key::<T>(s.drop_last()), s.last())
    }
}

/// No element's key comes before that of an element before it.
pub open spec fn key_sorted<T: SortKey>(s: Seq<T::V>) -> bool {
    forall|i: int, j: int|
        0 <= i < j < s.len() ==> !T::precedes(#[trigger] s[j], #[trigger] s[i])
}

proof fn lemma_insert_tail<T: SortKey>(s: Seq<T::V>, x: T::V, k: int)
    requires
        0 <= k <= s.len(),
        forall|j: int| k <= j < s.len() ==> T::precedes(x, #[trigger] s[j]),
    ensures
        insert_by_key::<T>(s, x) == insert_by_key::<T>(s.take(k), x) + s.skip(k),
    decreases s.len() - k,
{
    if k == s.len() {
        assert(s.take(k) =~= s);
        assert(s.skip(k) =~= Seq::<T::V>::empty());
        assert(insert_by_key::<T>(s, x) + Seq::<T::V>::empty() =~= insert_by_key::<T>(s, x));
    } else {
        lemma_insert_tail::<T>(s, x, k + 1);
        let t = s.take(k + 1);
        assert(t.drop_last() =~= s.take(k));
        assert(t.last() == s[k]);
        assert(insert_by_key::<T>(t, x) == insert_by_key::<T>(s.take(k), x).push(s[k]));
        assert(s.skip(k) =~= seq![s[k]] + s.skip(k + 1));
        assert(insert_by_key::<T>(s.take(k), x).push(s[k]) + s.skip(k + 1) =~= insert_by_key::<T>(
            s.take(k),
            x,
        ) + s.skip(k));
    }
}

/// Inserts `x` into `v` after every element whose key is not greater.
pub fn insert_sorted<T: SortKey>(v: &mut Vec<T>, x: T)
    ensures
        views_of(final(v)@) == insert_by_key::<T>(views_of(old(v)@), x@),
{
    let ghost s = views_of(v@);
    let ghost n0 = v@.len();
    let mut tail: Vec<T> = Vec::new();
    loop
        invariant
            s.len() == n0,
            v@.len() <= n0,
            views_of(v@) == s.take(v@.len() as int),
            tail@.len() == n0 - v@.len(),
            forall|j: int| 0 <= j < tail@.len() ==> #[trigger] tail@[j]@ == s[n0 - 1 - j],
            forall|j: int|
                v@.len() <= j < n0 ==> T::precedes(x@, #[trigger] s[j]),
        ensures
            s.len() == n0,
            v@.len() <= n0,
            views_of(v@) == s.take(v@.len() as int),
            tail@.len() == n0 - v@.len(),
            forall|j: int| 0 <= j < tail@.len() ==> #[trigger] tail@[j]@ == s[n0 - 1 - j],
            forall|j: int|
                v@.len() <= j < n0 ==> T::precedes(x@, #[trigger] s[j]),
            v@.len() == 0 || !T::precedes(x@, s[v@.len() - 1]),
        decreases v@.len(),
    {
        if v.len() == 0 {
            break;
        }
        assert(views_of(v@)[v@.len() - 1] == v@[v@.len() - 1]@);
        if !x.precedes_exec(&v[v.len() - 1]) {
            break;
        }
        let ghost n = v@.len();
        let last = v.pop().unwrap();
        assert(last@ == s[n - 1]);
        tail.push(last);
        assert(views_of(v@) =~= s.take(v@.len() as int));
    }
    let ghost k = v@.len() as int;
    proof {
        lemma_insert_tail::<T>(s, x@, k);
        let t = s.take(k);
        if k > 0 {
            assert(t.last() == s[k - 1]);
        }
    }
    let ghost before = v@;
    v.push(x);
    let ghost head = views_of(v@);
    assert(head =~= views_of(before).push(x@));
    assert(head == insert_by_key::<T>(s.take(k), x@));
    while tail.len() > 0
        invariant
            k + tail@.len() <= n0,
            s.len() == n0,
            0 <= k <= n0,
            forall|j: int| 0 <= j < tail@.len() ==> #[trigger] tail@[j]@ == s[n0 - 1 - j],
            views_of(v@) == head + s.subrange(k, n0 - tail@.len()),
        decreases tail@.len(),
    {
        let ghost m = tail@.len();
        let e = tail.pop().unwrap();
        assert(e@ == s[n0 - m]);
        let ghost vb = v@;
        v.push(e);
        assert(views_of(v@) =~= views_of(vb).push(e@));
        assert(views_of(v@) =~= head + s.subrange(k, n0 - tail@.len()));
    }
    assert(s.subrange(k, n0 as int) =~= s.skip(k));
}

/// `v` sorted by key, elements with equal keys kept in their order.
pub fn stable_sort<T: SortKey>(v: Vec<T>) -> (r: Vec<T>)
    ensures
        views_of(r@) == sort_by_key::<T>(views_of(v@)),
{
    let ghost s = views_of(v@);
    let ghost n0 = v@.len();
    let mut v = v;
    let mut rev: Vec<T> = Vec::new();
    while v.len() > 0
        invariant
            s.len() == n0,
            rev@.len() + v@.len() == n0,
            views_of(v@) == s.take(v@.len() as int),
            forall|j: int| 0 <= j < rev@.len() ==> #[trigger] rev@[j]@ == s[n0 - 1 - j],
        decreases v@.len(),
    {
        let ghost n = v@.len();
        assert(views_of(v@)[n - 1] == v@[n - 1]@);
        let e = v.pop().unwrap();
        assert(e@ == s[n - 1]);
        rev.push(e);
        assert(views_of(v@) =~= s.take(v@.len() as int));
    }
    let mut out: Vec<T> = Vec::new();
    assert(s.take(0) =~= Seq::<T::V>::empty());
    assert(views_of(out@) =~= Seq::<T::V>::empty());
    while rev.len() > 0
        invariant
            s.len() == n0,
            rev@.len() <= n0,
            forall|j: int| 0 <= j < rev@.len() ==> #[trigger] rev@[j]@ == s[n0 - 1 - j],
            views_of(out@) == sort_by_key::<T>(s.take(n0 - rev@.len())),
        decreases rev@.len(),
    {
        let ghost n = n0 - rev@.len();
        let e = rev.pop().unwrap();
        assert(e@ == s[n]);
        assert(s.take(n + 1).drop_last() =~= s.take(n));
        insert_sorted(&mut out, e);
    }
    assert(s.take(n0 as int) =~= s);
    out
}

/// Inserting into a sorted sequence keeps it sorted, and adds the element.
proof fn lemma_insert_sorted<T: SortKey>(s: Seq<T::V>, x: T::V)
    requires
        key_sorted::<T>(s),
    ensures
        key_sorted::<T>(insert_by_key::<T>(s, x)),
        insert_by_key::<T>(s, x).to_multiset() == s.to_multiset().insert(x),
        insert_by_key::<T>(s, x).len() == s.len() + 1,
        forall|k: int|
            0 <= k < insert_by_key::<T>(s, x).len() ==> #[trigger] insert_by_key::<T>(s, x)[k] == x
                || s.contains(insert_by_key::<T>(s, x)[k]),
    decreases s.len(),
{
    broadcast use vstd::seq_lib::group_to_multiset_ensures;

    if s.len() > 0 && T::precedes(x, s.last()) {
        let p = s.drop_last();
        assert forall|i: int, j: int| 0 <= i < j < p.len() implies !T::precedes(#[trigger] p[j], #[trigger] p[i]) by {
            assert(p[i] == s[i] && p[j] == s[j]);
        }
        lemma_insert_sorted::<T>(p, x);
        let q = insert_by_key::<T>(p, x);
        let r = q.push(s.last());
        assert(s =~= p.push(s.last()));
        assert forall|i: int, j: int| 0 <= i < j < r.len() implies !T::precedes(#[trigger] r[j], #[trigger] r[i]) by {
            if j == r.len() - 1 {
                assert(r[j] == s.last());
                let e = q[i];
                if e == x {
                    T::lemma_strict_weak_order(x, s.last(), x);
                } else {
                    assert(p.contains(e));
                    let m = choose|m: int| 0 <= m < p.len() && p[m] == e;
                    assert(s[m] == e);
                    assert(!T::precedes(s[s.len() - 1], s[m]));
                }
            } else {
                assert(r[i] == q[i] && r[j] == q[j]);
            }
        }
        assert forall|k: int| 0 <= k < r.len() implies #[trigger] r[k] == x || s.contains(r[k]) by {
            if k < q.len() {
                assert(r[k] == q[k]);
                if q[k] != x {
                    let m = choose|m: int| 0 <= m < p.len() && p[m] == q[k];
                    assert(s[m] == q[k]);
                }
            } else {
                assert(s[s.len() - 1] == r[k]);
            }
        }
        assert(r.to_multiset() =~= s.to_multiset().insert(x)) by {
            vstd::seq_lib::lemma_multiset_commutative(q, seq![s.last()]);
            vstd::seq_lib::lemma_multiset_commutative(p, seq![s.last()]);
            assert(q + seq![s.last()] =~= r);
            assert(p + seq![s.last()] =~= s);
        }
    } else {
        let r = s.push(x);
        assert forall|i: int, j: int| 0 <= i < j < r.len() implies !T::precedes(#[trigger] r[j], #[trigger] r[i]) by {
            if j == r.len() - 1 {
                assert(r[j] == x);
                if T::precedes(x, r[i]) {
                    assert(s.len() > 0);
                    assert(r[i] == s[i]);
                    if i < s.len() - 1 {
                        assert(!T::precedes(s[s.len() - 1], s[i]));
                        T::lemma_strict_weak_order(x, s[i], s.last());
                        T::lemma_strict_weak_order(s[i], s.last(), x);
                    }
                }
            } else {
                assert(r[i] == s[i] && r[j] == s[j]);
            }
        }
        assert forall|k: int| 0 <= k < r.len() implies #[trigger] r[k] == x || s.contains(r[k]) by {
            if k < s.len() {
                assert(r[k] == s[k]);
            }
        }
    }
}

/// A sorted sequence is in key order and holds the same elements as the
/// sequence it was sorted from.
pub proof fn law_sort_by_key<T: SortKey>(s: Seq<T::V>)
    ensures
        key_sorted::<T>(sort_by_key::<T>(s)),
        sort_by_key::<T>(s).to_multiset() == s.to_multiset(),
        sort_by_key::<T>(s).len() == s.len(),
    decreases s.len(),
{
    broadcast use vstd::seq_lib::group_to_multiset_ensures;

    if s.len() > 0 {
        law_sort_by_key::<T>(s.drop_last());
        lemma_insert_sorted::<T>(sort_by_key::<T>(s.drop_last()), s.last());
        assert(s =~= s.drop_last().push(s.last()));
    }
}

/// Sorting a sequence that is already in key order leaves it as it is.
pub proof fn law_sort_keeps_sorted<T: SortKey>(s: Seq<T::V>)
    requires
        key_sorted::<T>(s),
    ensures
        sort_by_key::<T>(s) == s,
    decreases s.len(),
{
    if s.len() > 0 {
        let p = s.drop_last();
        assert forall|i: int, j: int| 0 <= i < j < p.len() implies !T::precedes(#[trigger] p[j], #[trigger] p[i]) by {
            assert(p[i] == s[i] && p[j] == s[j]);
        }
        law_sort_keeps_sorted::<T>(p);
        if p.len() > 0 {
            assert(!T::precedes(s[s.len() - 1], s[s.len() - 2]));
        }
        assert(s =~= p.push(s.last()));
    }
}

} // verus!
