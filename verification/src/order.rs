//! Stable ordering of what the validator keeps in maps.
//!
//! A map hands out its entries in no particular order, so everything that goes
//! out to a client is put in order first. Keys are compared lexicographically.
use vstd::prelude::*;

verus! {

/// `a` comes no later than `b` in lexicographic order.
pub open spec fn lex_le(a: Seq<int>, b: Seq<int>) -> bool
    decreases a.len(),
{
    if a.len() == 0 {
        true
    } else if b.len() == 0 {
        false
    } else {
        a[0] < b[0] || (a[0] == b[0] && lex_le(a.drop_first(), b.drop_first()))
    }
}

/// A value that stands for `Item` and is ordered by a key.
pub trait Keyed: Sized {
    /// What the value means.
    type Item;

    /// The meaning of this value.
    spec fn item(&self) -> Self::Item;

    /// The key by which an item is ordered.
    spec fn key(item: Self::Item) -> Seq<int>;

    /// Compares two values by their keys.
    fn key_le(&self, other: &Self) -> (r: bool)
        ensures
            r == lex_le(Self::key(self.item()), Self::key(other.item())),
    ;
}

/// What a sequence of values means, one by one.
pub open spec fn items<T: Keyed>(s: Seq<T>) -> Seq<T::Item> {
    s.map_values(|x: T| x.item())
}

/// The key of an item, as a function.
pub open spec fn by_key<T: Keyed>() -> spec_fn(T::Item) -> Seq<int> {
    |item: T::Item| T::key(item)
}

/// `x` put into `s` behind every item whose key is no greater, reading from
/// the end.
pub open spec fn insert_by_key<V>(s: Seq<V>, x: V, key: spec_fn(V) -> Seq<int>) -> Seq<V>
    decreases s.len(),
{
    if s.len() == 0 || lex_le(key(s.last()), key(x)) {
        s.push(x)
    } else {
        insert_by_key(s.drop_last(), x, key).push(s.last())
    }
}

/// `s` in ascending order of its keys. Items with equal keys keep their order.
pub open spec fn stable_sort<V>(s: Seq<V>, key: spec_fn(V) -> Seq<int>) -> Seq<V>
    decreases s.len(),
{
    if s.len() == 0 {
        s
    } else {
        insert_by_key(stable_sort(s.drop_last(), key), s.last(), key)
    }
}

/// The keys of `s` never go down.
pub open spec fn sorted_by_key<V>(s: Seq<V>, key: spec_fn(V) -> Seq<int>) -> bool {
    forall|i: int, j: int|
        0 <= i < j < s.len() ==> #[trigger] lex_le(key(s[i]), key(s[j]))
}

/// No two items of `s` share a key.
pub open spec fn distinct_keys<V>(s: Seq<V>, key: spec_fn(V) -> Seq<int>) -> bool {
    forall|i: int, j: int|
        #![trigger s[i], s[j]]
        0 <= i < s.len() && 0 <= j < s.len() && i != j ==> key(s[i]) != key(s[j])
}

/// Lexicographic order is total.
pub proof fn lex_le_total(a: Seq<int>, b: Seq<int>)
    ensures
        lex_le(a, b) || lex_le(b, a),
    decreases a.len(),
{
    if a.len() > 0 && b.len() > 0 {
        lex_le_total(a.drop_first(), b.drop_first());
    }
}

/// Lexicographic order is transitive.
pub proof fn lex_le_transitive(a: Seq<int>, b: Seq<int>, c: Seq<int>)
    requires
        lex_le(a, b),
        lex_le(b, c),
    ensures
        lex_le(a, c),
    decreases a.len(),
{
    if a.len() > 0 && b.len() > 0 && c.len() > 0 && a[0] == b[0] && b[0] == c[0] {
        lex_le_transitive(a.drop_first(), b.drop_first(), c.drop_first());
    }
}

/// Lexicographic order is antisymmetric.
pub proof fn lex_le_antisymmetric(a: Seq<int>, b: Seq<int>)
    requires
        lex_le(a, b),
        lex_le(b, a),
    ensures
        a == b,
    decreases a.len(),
{
    if a.len() > 0 && b.len() > 0 {
        lex_le_antisymmetric(a.drop_first(), b.drop_first());
        assert(a =~= seq![a[0]] + a.drop_first());
        assert(b =~= seq![b[0]] + b.drop_first());
    } else {
        assert(a =~= b);
    }
}

proof fn lemma_insert_multiset<V>(s: Seq<V>, x: V, key: spec_fn(V) -> Seq<int>)
    ensures
        insert_by_key(s, x, key).to_multiset() == s.to_multiset().insert(x),
        insert_by_key(s, x, key).len() == s.len() + 1,
    decreases s.len(),
{
    broadcast use vstd::seq_lib::to_multiset_build;

    if s.len() > 0 && !lex_le(key(s.last()), key(x)) {
        lemma_insert_multiset(s.drop_last(), x, key);
        assert(s =~= s.drop_last().push(s.last()));
        assert(s.drop_last().to_multiset().insert(x).insert(s.last())
            =~= s.drop_last().to_multiset().insert(s.last()).insert(x));
    }
}

proof fn lemma_insert_contains<V>(s: Seq<V>, x: V, key: spec_fn(V) -> Seq<int>, i: int)
    requires
        0 <= i < insert_by_key(s, x, key).len(),
    ensures
        insert_by_key(s, x, key)[i] == x || s.contains(insert_by_key(s, x, key)[i]),
    decreases s.len(),
{
    if s.len() > 0 && !lex_le(key(s.last()), key(x)) {
        let r = insert_by_key(s.drop_last(), x, key);
        if i < r.len() {
            lemma_insert_contains(s.drop_last(), x, key, i);
            if r[i] != x {
                let j = choose|j: int| 0 <= j < s.drop_last().len() && s.drop_last()[j] == r[i];
                assert(s[j] == r[i]);
            }
        } else {
            assert(s[s.len() - 1] == s.last());
        }
    } else if i < s.len() {
        assert(s[i] == insert_by_key(s, x, key)[i]);
    }
}

proof fn lemma_insert_sorted<V>(s: Seq<V>, x: V, key: spec_fn(V) -> Seq<int>)
    requires
        sorted_by_key(s, key),
    ensures
        sorted_by_key(insert_by_key(s, x, key), key),
    decreases s.len(),
{
    let r = insert_by_key(s, x, key);
    if s.len() == 0 {
    } else if lex_le(key(s.last()), key(x)) {
        assert forall|i: int, j: int| 0 <= i < j < r.len() implies #[trigger] lex_le(
            key(r[i]),
            key(r[j]),
        ) by {
            if j == s.len() {
                if i < s.len() - 1 {
                    assert(lex_le(key(s[i]), key(s[s.len() - 1])));
                    lex_le_transitive(key(s[i]), key(s.last()), key(x));
                }
            } else {
                assert(lex_le(key(s[i]), key(s[j])));
            }
        }
    } else {
        let p = s.drop_last();
        let q = insert_by_key(p, x, key);
        assert(sorted_by_key(p, key)) by {
            assert forall|i: int, j: int| 0 <= i < j < p.len() implies #[trigger] lex_le(
                key(p[i]),
                key(p[j]),
            ) by {
                assert(lex_le(key(s[i]), key(s[j])));
            }
        }
        lemma_insert_sorted(p, x, key);
        lex_le_total(key(s.last()), key(x));
        assert forall|i: int, j: int| 0 <= i < j < r.len() implies #[trigger] lex_le(
            key(r[i]),
            key(r[j]),
        ) by {
            if j == q.len() {
                lemma_insert_contains(p, x, key, i);
                if q[i] != x {
                    let k = choose|k: int| 0 <= k < p.len() && p[k] == q[i];
                    assert(lex_le(key(s[k]), key(s[s.len() - 1])));
                }
            } else {
                assert(lex_le(key(q[i]), key(q[j])));
            }
        }
    }
}

/// Sorting leaves the items as they are and puts their keys in ascending order.
pub proof fn stable_sort_sorts<V>(s: Seq<V>, key: spec_fn(V) -> Seq<int>)
    ensures
        sorted_by_key(stable_sort(s, key), key),
        stable_sort(s, key).to_multiset() == s.to_multiset(),
        stable_sort(s, key).len() == s.len(),
    decreases s.len(),
{
    broadcast use vstd::seq_lib::to_multiset_build;

    if s.len() > 0 {
        stable_sort_sorts(s.drop_last(), key);
        let t = stable_sort(s.drop_last(), key);
        lemma_insert_sorted(t, s.last(), key);
        lemma_insert_multiset(t, s.last(), key);
        assert(s =~= s.drop_last().push(s.last()));
    }
}

proof fn lemma_insert_filter<V>(
    s: Seq<V>,
    x: V,
    key: spec_fn(V) -> Seq<int>,
    pred: spec_fn(V) -> bool,
    k: Seq<int>,
)
    requires
        sorted_by_key(s, key),
        forall|v: V| #[trigger] pred(v) <==> key(v) == k,
    ensures
        insert_by_key(s, x, key).filter(pred) == s.push(x).filter(pred),
    decreases s.len(),
{
    broadcast use Seq::lemma_filter_push;

    if s.len() > 0 && !lex_le(key(s.last()), key(x)) {
        let p = s.drop_last();
        assert(sorted_by_key(p, key)) by {
            assert forall|i: int, j: int| 0 <= i < j < p.len() implies #[trigger] lex_le(
                key(p[i]),
                key(p[j]),
            ) by {
                assert(lex_le(key(s[i]), key(s[j])));
            }
        }
        lemma_insert_filter(p, x, key, pred, k);
        assert(s =~= p.push(s.last()));
        lex_le_total(key(s.last()), key(s.last()));
        // `x` and the last item have different keys, so at most one of them passes.
        assert(!(pred(x) && pred(s.last())));
    }
}

/// Sorting is stable: the items of any one key keep their order.
pub proof fn stable_sort_is_stable<V>(s: Seq<V>, key: spec_fn(V) -> Seq<int>, k: Seq<int>)
    ensures
        stable_sort(s, key).filter(|v: V| key(v) == k) == s.filter(|v: V| key(v) == k),
    decreases s.len(),
{
    broadcast use Seq::lemma_filter_push;

    let pred = |v: V| key(v) == k;
    if s.len() > 0 {
        let t = stable_sort(s.drop_last(), key);
        stable_sort_is_stable(s.drop_last(), key, k);
        stable_sort_sorts(s.drop_last(), key);
        lemma_insert_filter(t, s.last(), key, pred, k);
        assert(s =~= s.drop_last().push(s.last()));
    }
}

proof fn lemma_distinct_after_sort<V>(s: Seq<V>, t: Seq<V>, key: spec_fn(V) -> Seq<int>)
    requires
        distinct_keys(s, key),
        s.to_multiset() == t.to_multiset(),
    ensures
        distinct_keys(t, key),
{
    broadcast use vstd::seq_lib::group_to_multiset_ensures;

    assert(s.no_duplicates());
    s.lemma_multiset_has_no_duplicates();
    t.lemma_multiset_has_no_duplicates_conv();
    assert forall|i: int, j: int|
        #![trigger t[i], t[j]]
        0 <= i < t.len() && 0 <= j < t.len() && i != j implies key(t[i]) != key(t[j]) by {
        assert(t[i] != t[j]);
        assert(t.to_multiset().count(t[i]) > 0) by {
            assert(t.contains(t[i]));
        }
        assert(t.to_multiset().count(t[j]) > 0) by {
            assert(t.contains(t[j]));
        }
        assert(s.contains(t[i]));
        assert(s.contains(t[j]));
        let a = choose|a: int| 0 <= a < s.len() && s[a] == t[i];
        let b = choose|b: int| 0 <= b < s.len() && s[b] == t[j];
        assert(s[a] != s[b]);
    }
}

proof fn lemma_sorted_distinct_unique<V>(a: Seq<V>, b: Seq<V>, key: spec_fn(V) -> Seq<int>)
    requires
        sorted_by_key(a, key),
        sorted_by_key(b, key),
        distinct_keys(a, key),
        distinct_keys(b, key),
        a.to_multiset() == b.to_multiset(),
    ensures
        a == b,
    decreases a.len(),
{
    broadcast use vstd::seq_lib::group_to_multiset_ensures;

    assert(a.len() == b.len()) by {
        a.to_multiset_ensures();
        b.to_multiset_ensures();
    }
    if a.len() == 0 {
        assert(a =~= b);
    } else {
        let n = a.len() - 1;
        // Both last items carry the greatest key, and keys do not repeat.
        assert(b.contains(a[n])) by {
            assert(a.contains(a[n]));
            assert(a.to_multiset().count(a[n]) > 0);
        }
        assert(a.contains(b[n])) by {
            assert(b.contains(b[n]));
            assert(b.to_multiset().count(b[n]) > 0);
        }
        let i = choose|i: int| 0 <= i < b.len() && b[i] == a[n];
        let j = choose|j: int| 0 <= j < a.len() && a[j] == b[n];
        if i != n {
            assert(lex_le(key(b[i]), key(b[n])));
            if j != n {
                assert(lex_le(key(a[j]), key(a[n])));
                lex_le_antisymmetric(key(a[n]), key(b[n]));
                assert(key(b[i]) == key(b[n]));
            }
        }
        assert(a[n] == b[n]);
        let c = a.drop_last();
        let d = b.drop_last();
        assert(a =~= c.push(a[n]));
        assert(b =~= d.push(b[n]));
        assert(c.to_multiset() =~= a.to_multiset().remove(a[n]));
        assert(d.to_multiset() =~= b.to_multiset().remove(b[n]));
        assert forall|i: int, j: int| 0 <= i < j < c.len() implies #[trigger] lex_le(
            key(c[i]),
            key(c[j]),
        ) by {
            assert(lex_le(key(a[i]), key(a[j])));
        }
        assert forall|i: int, j: int| 0 <= i < j < d.len() implies #[trigger] lex_le(
            key(d[i]),
            key(d[j]),
        ) by {
            assert(lex_le(key(b[i]), key(b[j])));
        }
        lemma_sorted_distinct_unique(c, d, key);
    }
}

/// Where keys do not repeat, the sorted sequence depends on the items alone and
/// not on the order in which they came.
pub proof fn stable_sort_ignores_order<V>(s: Seq<V>, t: Seq<V>, key: spec_fn(V) -> Seq<int>)
    requires
        distinct_keys(s, key),
        s.to_multiset() == t.to_multiset(),
    ensures
        stable_sort(s, key) == stable_sort(t, key),
{
    stable_sort_sorts(s, key);
    stable_sort_sorts(t, key);
    lemma_distinct_after_sort(s, stable_sort(s, key), key);
    lemma_distinct_after_sort(s, stable_sort(t, key), key);
    lemma_sorted_distinct_unique(stable_sort(s, key), stable_sort(t, key), key);
}

/// Puts `x` into `v` behind every value whose key is no greater.
pub fn insert_sorted<T: Keyed>(v: &mut Vec<T>, x: T)
    ensures
        items(final(v)@) == insert_by_key(items(old(v)@), x.item(), by_key::<T>()),
{
    let ghost key = by_key::<T>();
    let ghost all = items(v@);
    let mut at: usize = v.len();
    proof {
        assert(all.take(at as int) =~= all);
        assert(all.skip(at as int) =~= Seq::<T::Item>::empty());
        assert(insert_by_key(all, x.item(), key) =~= insert_by_key(
            all.take(at as int),
            x.item(),
            key,
        ) + all.skip(at as int));
    }
    while at > 0 && !v[at - 1].key_le(&x)
        invariant
            at <= v.len(),
            all == items(v@),
            key == by_key::<T>(),
            insert_by_key(all, x.item(), key) == insert_by_key(
                all.take(at as int),
                x.item(),
                key,
            ) + all.skip(at as int),
        decreases at,
    {
        proof {
            let p = all.take(at as int);
            assert(p.last() == all[at - 1]);
            assert(p.drop_last() =~= all.take(at - 1));
            assert(insert_by_key(p, x.item(), key) == insert_by_key(
                p.drop_last(),
                x.item(),
                key,
            ).push(p.last()));
            assert(insert_by_key(p, x.item(), key) + all.skip(at as int) =~= insert_by_key(
                all.take(at - 1),
                x.item(),
                key,
            ) + all.skip(at - 1));
        }
        at = at - 1;
    }
    proof {
        let p = all.take(at as int);
        if at > 0 {
            assert(p.last() == all[at - 1]);
        }
        assert(insert_by_key(p, x.item(), key) == p.push(x.item()));
        assert(items(v@.insert(at as int, x)) =~= p.push(x.item()) + all.skip(at as int));
    }
    v.insert(at, x);
}

/// The values of `v` in ascending order of their keys.
pub fn sort<T: Keyed + Copy>(v: &Vec<T>) -> (r: Vec<T>)
    ensures
        items(r@) == stable_sort(items(v@), by_key::<T>()),
{
    let ghost key = by_key::<T>();
    let mut out: Vec<T> = Vec::new();
    assert(items(out@) =~= stable_sort(items(v@.take(0)), key));
    for i in 0..v.len()
        invariant
            key == by_key::<T>(),
            items(out@) == stable_sort(items(v@.take(i as int)), key),
    {
        proof {
            let next = items(v@.take(i + 1));
            assert(next.drop_last() =~= items(v@.take(i as int)));
            assert(next.last() == v@[i as int].item());
        }
        insert_sorted(&mut out, v[i]);
    }
    assert(v@.take(v@.len() as int) =~= v@);
    out
}

} // verus!
