//! Lexicographic order on text, and sorting by it.

use vstd::prelude::*;

use crate::text::{chars_of, same, texts};

verus! {

/// Whether `a` comes no later than `b`, comparing code points from the front.
pub open spec fn le(a: Seq<char>, b: Seq<char>) -> bool
    decreases a.len(),
{
    if a.len() == 0 {
        true
    } else if b.len() == 0 {
        false
    } else if a[0] == b[0] {
        le(a.drop_first(), b.drop_first())
    } else {
        a[0] < b[0]
    }
}

/// Whether each item's key comes no later than the keys behind it.
pub open spec fn in_order<T>(s: Seq<T>, key: spec_fn(T) -> Seq<char>) -> bool {
    forall|i: int, j: int| 0 <= i < j < s.len() ==> le(key(#[trigger] s[i]), key(#[trigger] s[j]))
}

/// `s` with `x` put behind the last item whose key comes no later.
pub open spec fn inserted<T>(s: Seq<T>, x: T, key: spec_fn(T) -> Seq<char>) -> Seq<T>
    decreases s.len(),
{
    if s.len() == 0 || le(key(s.last()), key(x)) {
        s.push(x)
    } else {
        inserted(s.drop_last(), x, key).push(s.last())
    }
}

/// The items of `s` in the order of their keys; equal keys keep their order.
pub open spec fn sorted_by<T>(s: Seq<T>, key: spec_fn(T) -> Seq<char>) -> Seq<T>
    decreases s.len(),
{
    if s.len() == 0 {
        seq![]
    } else {
        inserted(sorted_by(s.drop_last(), key), s.last(), key)
    }
}

/// Whether an item has the key `k`.
pub open spec fn has_key<T>(key: spec_fn(T) -> Seq<char>, k: Seq<char>) -> spec_fn(T) -> bool {
    |x: T| key(x) == k
}

/// A text as its own key.
pub open spec fn itself() -> spec_fn(Seq<char>) -> Seq<char> {
    |s: Seq<char>| s
}

/// The texts of `s` in order.
pub open spec fn sorted(s: Seq<Seq<char>>) -> Seq<Seq<char>> {
    sorted_by(s, itself())
}

/// The texts of `s` in order, each of them once.
pub open spec fn sorted_set(s: Seq<Seq<char>>) -> Seq<Seq<char>>
    decreases s.len(),
{
    if s.len() == 0 {
        seq![]
    } else {
        let rest = sorted_set(s.drop_last());
        if rest.contains(s.last()) {
            rest
        } else {
            inserted(rest, s.last(), itself())
        }
    }
}

pub proof fn law_le_is_reflexive(a: Seq<char>)
    ensures
        le(a, a),
    decreases a.len(),
{
    if a.len() > 0 {
        law_le_is_reflexive(a.drop_first());
    }
}

pub proof fn law_le_is_total(a: Seq<char>, b: Seq<char>)
    ensures
        le(a, b) || le(b, a),
    decreases a.len(),
{
    if a.len() > 0 && b.len() > 0 {
        law_le_is_total(a.drop_first(), b.drop_first());
    }
}

pub proof fn law_le_is_antisymmetric(a: Seq<char>, b: Seq<char>)
    requires
        le(a, b),
        le(b, a),
    ensures
        a == b,
    decreases a.len(),
{
    if a.len() > 0 && b.len() > 0 {
        law_le_is_antisymmetric(a.drop_first(), b.drop_first());
        assert(a =~= seq![a[0]] + a.drop_first());
        assert(b =~= seq![b[0]] + b.drop_first());
    } else {
        assert(a =~= b);
    }
}

pub proof fn law_le_is_transitive(a: Seq<char>, b: Seq<char>, c: Seq<char>)
    requires
        le(a, b),
        le(b, c),
    ensures
        le(a, c),
    decreases a.len(),
{
    if a.len() > 0 && b.len() > 0 && c.len() > 0 && a[0] == b[0] && b[0] == c[0] {
        law_le_is_transitive(a.drop_first(), b.drop_first(), c.drop_first());
    }
}

proof fn lemma_inserted<T>(s: Seq<T>, x: T, key: spec_fn(T) -> Seq<char>)
    ensures
        inserted(s, x, key).to_multiset() == s.to_multiset().insert(x),
        inserted(s, x, key).len() == s.len() + 1,
        forall|y: T| #[trigger] inserted(s, x, key).contains(y) <==> s.contains(y) || y == x,
        in_order(s, key) ==> in_order(inserted(s, x, key), key),
    decreases s.len(),
{
    broadcast use vstd::seq_lib::group_to_multiset_ensures;

    let r = inserted(s, x, key);
    if s.len() == 0 || le(key(s.last()), key(x)) {
        assert forall|y: T| #[trigger] r.contains(y) <==> s.contains(y) || y == x by {
            lemma_push_contains(s, x, y);
        }
        if in_order(s, key) {
            assert forall|i: int, j: int| 0 <= i < j < r.len() implies le(
                key(#[trigger] r[i]),
                key(#[trigger] r[j]),
            ) by {
                if j < s.len() {
                    assert(le(key(s[i]), key(s[j])));
                } else if i < s.len() - 1 {
                    assert(le(key(s[i]), key(s[s.len() - 1])));
                    law_le_is_transitive(key(s[i]), key(s.last()), key(x));
                }
            }
        }
    } else {
        let t = s.drop_last();
        lemma_inserted(t, x, key);
        let u = inserted(t, x, key);
        assert(s =~= t.push(s.last()));
        assert(t.to_multiset().insert(x).insert(s.last()) =~= t.to_multiset().insert(
            s.last(),
        ).insert(x));
        assert forall|y: T| #[trigger] r.contains(y) <==> s.contains(y) || y == x by {
            lemma_push_contains(u, s.last(), y);
            lemma_push_contains(t, s.last(), y);
        }
        if in_order(s, key) {
            assert(in_order(t, key)) by {
                assert forall|i: int, j: int| 0 <= i < j < t.len() implies le(
                    key(#[trigger] t[i]),
                    key(#[trigger] t[j]),
                ) by {
                    assert(le(key(s[i]), key(s[j])));
                }
            }
            law_le_is_total(key(s.last()), key(x));
            law_le_is_reflexive(key(s.last()));
            assert forall|i: int, j: int| 0 <= i < j < r.len() implies le(
                key(#[trigger] r[i]),
                key(#[trigger] r[j]),
            ) by {
                if j < u.len() {
                    assert(le(key(u[i]), key(u[j])));
                } else {
                    assert(u.contains(u[i]));
                    if t.contains(u[i]) {
                        let k = choose|k: int| 0 <= k < t.len() && t[k] == u[i];
                        assert(s[k] == u[i]);
                        assert(le(key(s[k]), key(s[s.len() - 1])));
                    }
                }
            }
        }
    }
}

/// An item is among the items of a longer list if it was there or is the new one.
pub proof fn lemma_push_contains<T>(s: Seq<T>, x: T, y: T)
    ensures
        s.push(x).contains(y) <==> s.contains(y) || y == x,
{
    if s.contains(y) {
        let k = choose|k: int| 0 <= k < s.len() && s[k] == y;
        assert(s.push(x)[k] == y);
    }
    if y == x {
        assert(s.push(x)[s.len() as int] == y);
    }
    if s.push(x).contains(y) {
        let k = choose|k: int| 0 <= k < s.push(x).len() && s.push(x)[k] == y;
        if k < s.len() {
            assert(s[k] == y);
        }
    }
}

/// Putting an item into items that are in order leaves them in order, with the item
/// among them.
pub proof fn law_insertion_keeps_order<T>(s: Seq<T>, x: T, key: spec_fn(T) -> Seq<char>)
    requires
        in_order(s, key),
    ensures
        in_order(inserted(s, x, key), key),
        inserted(s, x, key).to_multiset() == s.to_multiset().insert(x),
{
    lemma_inserted(s, x, key);
}

/// Sorting keeps the items and puts their keys in order.
pub proof fn law_sorting_orders<T>(s: Seq<T>, key: spec_fn(T) -> Seq<char>)
    ensures
        in_order(sorted_by(s, key), key),
        sorted_by(s, key).to_multiset() == s.to_multiset(),
    decreases s.len(),
{
    broadcast use vstd::seq_lib::group_to_multiset_ensures;

    if s.len() > 0 {
        law_sorting_orders(s.drop_last(), key);
        lemma_inserted(sorted_by(s.drop_last(), key), s.last(), key);
        assert(s =~= s.drop_last().push(s.last()));
    } else {
        assert(s =~= seq![]);
    }
}

proof fn lemma_filter_push<T>(s: Seq<T>, x: T, p: spec_fn(T) -> bool)
    ensures
        s.push(x).filter(p) == if p(x) {
            s.filter(p).push(x)
        } else {
            s.filter(p)
        },
{
    reveal(Seq::filter);
    assert(s.push(x).drop_last() =~= s);
}

proof fn lemma_inserted_stable<T>(s: Seq<T>, x: T, key: spec_fn(T) -> Seq<char>, k: Seq<char>)
    ensures
        inserted(s, x, key).filter(has_key(key, k)) == s.push(x).filter(has_key(key, k)),
    decreases s.len(),
{
    let p = has_key(key, k);
    if s.len() == 0 || le(key(s.last()), key(x)) {
    } else {
        let t = s.drop_last();
        let last = s.last();
        lemma_inserted_stable(t, x, key, k);
        law_le_is_reflexive(key(x));
        assert(s =~= t.push(last));
        lemma_filter_push(inserted(t, x, key), last, p);
        lemma_filter_push(t, x, p);
        lemma_filter_push(t, last, p);
        lemma_filter_push(s, x, p);
    }
}

/// Sorting is stable: items with one key stay in the order they came in.
pub proof fn law_sorting_is_stable<T>(s: Seq<T>, key: spec_fn(T) -> Seq<char>, k: Seq<char>)
    ensures
        sorted_by(s, key).filter(has_key(key, k)) == s.filter(has_key(key, k)),
    decreases s.len(),
{
    if s.len() > 0 {
        let t = s.drop_last();
        let last = s.last();
        law_sorting_is_stable(t, key, k);
        lemma_inserted_stable(sorted_by(t, key), last, key, k);
        lemma_filter_push(sorted_by(t, key), last, has_key(key, k));
        lemma_filter_push(t, last, has_key(key, k));
        assert(s =~= t.push(last));
    } else {
        assert(s =~= seq![]);
    }
}

/// A sorted set holds the texts it was made of, in order and each of them once.
pub proof fn law_sorted_set(s: Seq<Seq<char>>)
    ensures
        in_order(sorted_set(s), itself()),
        sorted_set(s).no_duplicates(),
        forall|y: Seq<char>| #[trigger] sorted_set(s).contains(y) <==> s.contains(y),
    decreases s.len(),
{
    if s.len() > 0 {
        let t = s.drop_last();
        law_sorted_set(t);
        let rest = sorted_set(t);
        let r = sorted_set(s);
        lemma_inserted(rest, s.last(), itself());
        assert(s =~= t.push(s.last()));
        assert forall|y: Seq<char>| #[trigger] r.contains(y) <==> s.contains(y) by {
            lemma_push_contains(t, s.last(), y);
        }
        if !rest.contains(s.last()) {
            lemma_inserted_distinct(rest, s.last());
        }
    }
}

proof fn lemma_inserted_distinct(s: Seq<Seq<char>>, x: Seq<char>)
    requires
        s.no_duplicates(),
        !s.contains(x),
    ensures
        inserted(s, x, itself()).no_duplicates(),
    decreases s.len(),
{
    if s.len() == 0 || le(s.last(), x) {
        let r = s.push(x);
        assert forall|i: int, j: int| 0 <= i < r.len() && 0 <= j < r.len() && i != j implies r[i]
            != r[j] by {
            if i < s.len() {
                assert(s.contains(s[i]));
            }
            if j < s.len() {
                assert(s.contains(s[j]));
            }
        }
    } else {
        let t = s.drop_last();
        assert forall|y: Seq<char>| t.contains(y) implies s.contains(y) by {
            let k = choose|k: int| 0 <= k < t.len() && t[k] == y;
            assert(s[k] == y);
        }
        lemma_inserted_distinct(t, x);
        lemma_inserted(t, x, itself());
        let u = inserted(t, x, itself());
        let r = u.push(s.last());
        assert(s.contains(s.last()));
        assert forall|i: int| 0 <= i < u.len() implies u[i] != s.last() by {
            assert(u.contains(u[i]));
            if t.contains(u[i]) {
                let k = choose|k: int| 0 <= k < t.len() && t[k] == u[i];
                assert(s[k] == u[i]);
            }
        }
    }
}

/// Where an item goes: `inserted` puts it at position `p`.
pub proof fn lemma_inserted_at<T>(s: Seq<T>, x: T, key: spec_fn(T) -> Seq<char>, p: int)
    requires
        0 <= p <= s.len(),
        p == 0 || le(key(s[p - 1]), key(x)),
        forall|j: int| p <= j < s.len() ==> !le(key(#[trigger] s[j]), key(x)),
    ensures
        inserted(s, x, key) == s.insert(p, x),
    decreases s.len(),
{
    if s.len() == 0 {
        assert(s.push(x) =~= s.insert(p, x));
    } else if p == s.len() {
        assert(s.push(x) =~= s.insert(p, x));
    } else {
        let t = s.drop_last();
        assert(!le(key(s[s.len() - 1]), key(x)));
        lemma_inserted_at(t, x, key, p);
        assert(t.insert(p, x).push(s.last()) =~= s.insert(p, x));
    }
}

/// Whether `a` comes no later than `b`.
pub fn not_after(a: &str, b: &str) -> (r: bool)
    ensures
        r == le(a@, b@),
{
    let av = chars_of(a);
    let bv = chars_of(b);
    let mut i: usize = 0;
    assert(a@.skip(0) =~= a@);
    assert(b@.skip(0) =~= b@);
    while i < av.len() && i < bv.len() && av[i] == bv[i]
        invariant
            av@ == a@,
            bv@ == b@,
            i <= av@.len(),
            i <= bv@.len(),
            le(a@, b@) == le(a@.skip(i as int), b@.skip(i as int)),
        decreases av.len() - i,
    {
        proof {
            let s = a@.skip(i as int);
            let t = b@.skip(i as int);
            assert(s[0] == av@[i as int]);
            assert(t[0] == bv@[i as int]);
            assert(s.drop_first() =~= a@.skip(i + 1));
            assert(t.drop_first() =~= b@.skip(i + 1));
        }
        i += 1;
    }
    proof {
        let s = a@.skip(i as int);
        let t = b@.skip(i as int);
        if s.len() > 0 {
            assert(s[0] == av@[i as int]);
        }
        if t.len() > 0 {
            assert(t[0] == bv@[i as int]);
        }
    }
    if i == av.len() {
        true
    } else if i == bv.len() {
        false
    } else {
        av[i] < bv[i]
    }
}

/// Whether `x` is among `v`.
pub fn among(v: &Vec<String>, x: &str) -> (r: bool)
    ensures
        r == texts(v@).contains(x@),
{
    let mut i: usize = 0;
    let ghost all = texts(v@);
    while i < v.len()
        invariant
            i <= v@.len(),
            all == texts(v@),
            forall|j: int| 0 <= j < i ==> #[trigger] all[j] != x@,
        decreases v.len() - i,
    {
        if same(v[i].as_str(), x) {
            assert(all[i as int] == x@);
            return true;
        }
        i += 1;
    }
    false
}

/// Puts `x` into `v` behind the last text that comes no later.
fn put_in_order(v: &mut Vec<String>, x: String)
    ensures
        texts(final(v)@) == inserted(texts(old(v)@), x@, itself()),
{
    let mut p: usize = v.len();
    let ghost all = texts(v@);
    while p > 0 && !not_after(v[p - 1].as_str(), x.as_str())
        invariant
            p <= v@.len(),
            all == texts(v@),
            forall|j: int| p <= j < all.len() ==> !le(#[trigger] all[j], x@),
        decreases p,
    {
        assert(all[p - 1] == v@[p - 1]@);
        p -= 1;
    }
    proof {
        if p > 0 {
            assert(all[p - 1] == v@[p - 1]@);
        }
        let key = itself();
        assert forall|j: int| p <= j < all.len() implies !le(key(#[trigger] all[j]), key(x@)) by {}
        lemma_inserted_at(all, x@, itself(), p as int);
    }
    let ghost xv = x@;
    v.insert(p, x);
    assert(texts(v@) =~= all.insert(p as int, xv));
}

/// The texts of `v` in order.
pub fn sort(v: &Vec<String>) -> (r: Vec<String>)
    ensures
        texts(r@) == sorted(texts(v@)),
{
    let mut r: Vec<String> = Vec::new();
    let mut i: usize = 0;
    let ghost all = texts(v@);
    assert(texts(r@) =~= sorted(all.take(0)));
    while i < v.len()
        invariant
            i <= v@.len(),
            all == texts(v@),
            texts(r@) == sorted(all.take(i as int)),
        decreases v.len() - i,
    {
        let ghost next = all.take(i + 1);
        assert(next.drop_last() =~= all.take(i as int));
        assert(next.last() == v@[i as int]@);
        put_in_order(&mut r, v[i].clone());
        i += 1;
    }
    assert(all.take(i as int) =~= all);
    r
}

/// The texts of `v` in order, each of them once.
pub fn sort_distinct(v: &Vec<String>) -> (r: Vec<String>)
    ensures
        texts(r@) == sorted_set(texts(v@)),
{
    let mut r: Vec<String> = Vec::new();
    let mut i: usize = 0;
    let ghost all = texts(v@);
    assert(texts(r@) =~= sorted_set(all.take(0)));
    while i < v.len()
        invariant
            i <= v@.len(),
            all == texts(v@),
            texts(r@) == sorted_set(all.take(i as int)),
        decreases v.len() - i,
    {
        let ghost next = all.take(i + 1);
        assert(next.drop_last() =~= all.take(i as int));
        assert(next.last() == v@[i as int]@);
        if !among(&r, v[i].as_str()) {
            put_in_order(&mut r, v[i].clone());
        }
        i += 1;
    }
    assert(all.take(i as int) =~= all);
    r
}

} // verus!
