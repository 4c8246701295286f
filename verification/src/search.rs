//! First matches, lists of all matches, and lists whose making can fail.
use vstd::prelude::*;

verus! {

/// What `f` finds at the first place where it finds anything.
pub open spec fn find_map<T, U>(s: Seq<T>, f: spec_fn(T) -> Option<U>) -> Option<U>
    decreases s.len(),
{
    if s.len() == 0 {
        None
    } else {
        match f(s[0]) {
            Some(u) => Some(u),
            None => find_map(s.drop_first(), f),
        }
    }
}

/// One step of a search: what is left to search from place `i` on.
pub proof fn find_map_step<T, U>(s: Seq<T>, f: spec_fn(T) -> Option<U>, i: int)
    requires
        0 <= i < s.len(),
    ensures
        find_map(s.skip(i), f) == (match f(s[i]) {
            Some(u) => Some(u),
            None => find_map(s.skip(i + 1), f),
        }),
{
    assert(s.skip(i).drop_first() =~= s.skip(i + 1));
}

/// A search finds what stands at the first place where `f` finds anything, and
/// nothing only where `f` finds nothing anywhere.
pub proof fn find_map_is_first<T, U>(s: Seq<T>, f: spec_fn(T) -> Option<U>)
    ensures
        match find_map(s, f) {
            Some(u) => exists|i: int|
                #![trigger s[i]]
                0 <= i < s.len() && f(s[i]) == Some(u) && (forall|j: int|
                    #![trigger s[j]]
                    0 <= j < i ==> f(s[j]) is None),
            None => forall|i: int| #![trigger s[i]] 0 <= i < s.len() ==> f(s[i]) is None,
        },
    decreases s.len(),
{
    if s.len() > 0 {
        let rest = s.drop_first();
        if f(s[0]) is None {
            find_map_is_first(rest, f);
            match find_map(rest, f) {
                Some(u) => {
                    let i = choose|i: int|
                        #![trigger rest[i]]
                        0 <= i < rest.len() && f(rest[i]) == Some(u) && (forall|j: int|
                            #![trigger rest[j]]
                            0 <= j < i ==> f(rest[j]) is None);
                    assert(s[i + 1] == rest[i]);
                    assert forall|j: int| #![trigger s[j]] 0 <= j < i + 1 implies f(
                        s[j],
                    ) is None by {
                        if j > 0 {
                            assert(rest[j - 1] == s[j]);
                        }
                    }
                },
                None => {
                    assert forall|i: int| #![trigger s[i]] 0 <= i < s.len() implies f(
                        s[i],
                    ) is None by {
                        if i > 0 {
                            assert(rest[i - 1] == s[i]);
                        }
                    }
                },
            }
        } else {
            assert(f(s[0]) == find_map(s, f));
        }
    }
}

/// What `f` makes of each element, one behind the other, or the first failure.
pub open spec fn try_flat_map<T, U, E>(
    s: Seq<T>,
    f: spec_fn(T) -> Result<Seq<U>, E>,
) -> Result<Seq<U>, E>
    decreases s.len(),
{
    if s.len() == 0 {
        Ok(Seq::empty())
    } else {
        match try_flat_map(s.drop_last(), f) {
            Err(e) => Err(e),
            Ok(done) => match f(s.last()) {
                Err(e) => Err(e),
                Ok(more) => Ok(done + more),
            },
        }
    }
}

/// A failure part of the way is the failure of the whole.
pub proof fn try_flat_map_stops<T, U, E>(
    s: Seq<T>,
    f: spec_fn(T) -> Result<Seq<U>, E>,
    k: int,
)
    requires
        0 <= k <= s.len(),
        try_flat_map(s.take(k), f) is Err,
    ensures
        try_flat_map(s, f) == try_flat_map(s.take(k), f),
    decreases s.len(),
{
    if k == s.len() {
        assert(s.take(k) =~= s);
    } else {
        assert(s.drop_last().take(k) =~= s.take(k));
        try_flat_map_stops(s.drop_last(), f, k);
    }
}

/// The list fails with the first failure among its elements, and succeeds only
/// where every element does.
pub proof fn try_flat_map_first_failure<T, U, E>(s: Seq<T>, f: spec_fn(T) -> Result<Seq<U>, E>)
    ensures
        match try_flat_map(s, f) {
            Ok(_) => forall|i: int| #![trigger s[i]] 0 <= i < s.len() ==> f(s[i]) is Ok,
            Err(e) => exists|i: int|
                #![trigger s[i]]
                0 <= i < s.len() && f(s[i]) == Err::<Seq<U>, E>(e) && (forall|j: int|
                    #![trigger s[j]]
                    0 <= j < i ==> f(s[j]) is Ok),
        },
    decreases s.len(),
{
    if s.len() > 0 {
        let p = s.drop_last();
        try_flat_map_first_failure(p, f);
        match try_flat_map(p, f) {
            Ok(_) => {
                assert forall|i: int| #![trigger s[i]] 0 <= i < p.len() implies f(s[i]) is Ok by {
                    assert(p[i] == s[i]);
                }
                assert(s[s.len() - 1] == s.last());
            },
            Err(e) => {
                let i = choose|i: int|
                    #![trigger p[i]]
                    0 <= i < p.len() && f(p[i]) == Err::<Seq<U>, E>(e) && (forall|j: int|
                        #![trigger p[j]]
                        0 <= j < i ==> f(p[j]) is Ok);
                assert(s[i] == p[i]);
                assert forall|j: int| #![trigger s[j]] 0 <= j < i implies f(s[j]) is Ok by {
                    assert(p[j] == s[j]);
                }
            },
        }
    }
}

/// Searches that find the same at every place find the same.
pub proof fn find_map_agrees<S, T, U>(
    s: Seq<S>,
    t: Seq<T>,
    f: spec_fn(S) -> Option<U>,
    g: spec_fn(T) -> Option<U>,
)
    requires
        s.len() == t.len(),
        forall|i: int| #![trigger s[i]] #![trigger t[i]] 0 <= i < s.len() ==> f(s[i]) == g(t[i]),
    ensures
        find_map(s, f) == find_map(t, g),
    decreases s.len(),
{
    if s.len() > 0 {
        let p = s.drop_first();
        let q = t.drop_first();
        assert(f(s[0]) == g(t[0]));
        assert forall|i: int| #![trigger p[i]] #![trigger q[i]] 0 <= i < p.len() implies f(p[i])
            == g(q[i]) by {
            assert(p[i] == s[i + 1] && q[i] == t[i + 1]);
        }
        find_map_agrees(p, q, f, g);
    }
}

/// Lists whose parts are the same at every place are the same.
pub proof fn try_flat_map_agrees<S, T, U, E>(
    s: Seq<S>,
    t: Seq<T>,
    f: spec_fn(S) -> Result<Seq<U>, E>,
    g: spec_fn(T) -> Result<Seq<U>, E>,
)
    requires
        s.len() == t.len(),
        forall|i: int| #![trigger s[i]] #![trigger t[i]] 0 <= i < s.len() ==> f(s[i]) == g(t[i]),
    ensures
        try_flat_map(s, f) == try_flat_map(t, g),
    decreases s.len(),
{
    if s.len() > 0 {
        let p = s.drop_last();
        let q = t.drop_last();
        assert forall|i: int| #![trigger p[i]] #![trigger q[i]] 0 <= i < p.len() implies f(p[i])
            == g(q[i]) by {
            assert(p[i] == s[i] && q[i] == t[i]);
        }
        try_flat_map_agrees(p, q, f, g);
        assert(f(s[s.len() - 1]) == g(t[s.len() - 1]));
    }
}

/// What holds of every part that is made holds of the whole list.
pub proof fn try_flat_map_all<T, U, E>(
    s: Seq<T>,
    f: spec_fn(T) -> Result<Seq<U>, E>,
    p: spec_fn(U) -> bool,
)
    requires
        forall|i: int, k: int|
            #![trigger f(s[i])->Ok_0[k]]
            0 <= i < s.len() && f(s[i]) is Ok && 0 <= k < f(s[i])->Ok_0.len() ==> p(
                f(s[i])->Ok_0[k],
            ),
        try_flat_map(s, f) is Ok,
    ensures
        forall|k: int|
            #![trigger try_flat_map(s, f)->Ok_0[k]]
            0 <= k < try_flat_map(s, f)->Ok_0.len() ==> p(try_flat_map(s, f)->Ok_0[k]),
    decreases s.len(),
{
    if s.len() > 0 {
        let rest = s.drop_last();
        let last = s.len() - 1;
        assert forall|i: int, k: int|
            #![trigger f(rest[i])->Ok_0[k]]
            0 <= i < rest.len() && f(rest[i]) is Ok && 0 <= k < f(
                rest[i],
            )->Ok_0.len() implies p(f(rest[i])->Ok_0[k]) by {
            assert(p(f(s[i])->Ok_0[k]));
        }
        try_flat_map_all(rest, f, p);
        let done = try_flat_map(rest, f)->Ok_0;
        let all = try_flat_map(s, f)->Ok_0;
        assert forall|k: int| #![trigger all[k]] 0 <= k < all.len() implies p(all[k]) by {
            if k < done.len() {
                assert(p(try_flat_map(rest, f)->Ok_0[k]));
            } else {
                assert(p(f(s[last])->Ok_0[k - done.len()]));
            }
        }
    }
}

/// Where every element makes one item, the list holds the items in the order of
/// the elements.
pub proof fn try_flat_map_one_each<T, U, E>(s: Seq<T>, f: spec_fn(T) -> Result<Seq<U>, E>)
    requires
        forall|i: int|
            #![trigger s[i]]
            0 <= i < s.len() && f(s[i]) is Ok ==> f(s[i])->Ok_0.len() == 1,
        try_flat_map(s, f) is Ok,
    ensures
        try_flat_map(s, f)->Ok_0.len() == s.len(),
        forall|i: int|
            #![trigger s[i]]
            0 <= i < s.len() ==> f(s[i]) is Ok && try_flat_map(s, f)->Ok_0[i] == f(s[i])->Ok_0[0],
    decreases s.len(),
{
    if s.len() > 0 {
        let rest = s.drop_last();
        assert forall|i: int| #![trigger rest[i]] 0 <= i < rest.len() && f(rest[i]) is Ok implies f(
            rest[i],
        )->Ok_0.len() == 1 by {
            assert(rest[i] == s[i]);
        }
        try_flat_map_one_each(rest, f);
        let all = try_flat_map(s, f)->Ok_0;
        assert forall|i: int| #![trigger s[i]] 0 <= i < s.len() implies f(s[i]) is Ok && all[i]
            == f(s[i])->Ok_0[0] by {
            if i < rest.len() {
                assert(rest[i] == s[i]);
            }
        }
    }
}

/// The places of a list.
pub open spec fn places(n: nat) -> Seq<int> {
    Seq::new(n, |i: int| i)
}

/// The places among the first `n` at which `f` finds anything, in order.
pub open spec fn kept<U>(n: nat, f: spec_fn(int) -> Option<U>) -> Seq<int>
    decreases n,
{
    if n == 0 {
        Seq::empty()
    } else {
        let before = kept((n - 1) as nat, f);
        if f(n - 1) is Some {
            before.push(n - 1)
        } else {
            before
        }
    }
}

/// A list of all matches holds what `f` finds at each place where it finds
/// anything, once, and in the order of the places.
pub proof fn filter_map_keeps_order<U>(n: nat, f: spec_fn(int) -> Option<U>)
    ensures
        places(n).filter_map(f).len() == kept(n, f).len(),
        forall|k: int|
            #![trigger kept(n, f)[k]]
            0 <= k < kept(n, f).len() ==> 0 <= kept(n, f)[k] < n && f(kept(n, f)[k]) == Some(
                places(n).filter_map(f)[k],
            ),
        forall|k: int, l: int|
            #![trigger kept(n, f)[k], kept(n, f)[l]]
            0 <= k < l < kept(n, f).len() ==> kept(n, f)[k] < kept(n, f)[l],
        forall|i: int|
            #![trigger f(i)]
            0 <= i < n && f(i) is Some ==> kept(n, f).contains(i),
    decreases n,
{
    if n > 0 {
        let m = (n - 1) as nat;
        filter_map_keeps_order(m, f);
        assert(places(n).drop_last() =~= places(m));
        assert(places(n).last() == m);
        let before = kept(m, f);
        let now = kept(n, f);
        assert forall|i: int| #![trigger f(i)] 0 <= i < n && f(i) is Some implies now.contains(
            i,
        ) by {
            if i == m {
                assert(now[before.len() as int] == i);
            } else {
                let k = choose|k: int| 0 <= k < before.len() && before[k] == i;
                assert(now[k] == i);
            }
        }
        assert forall|k: int| #![trigger now[k]] 0 <= k < now.len() implies 0 <= now[k] < n && f(
            now[k],
        ) == Some(places(n).filter_map(f)[k]) by {
            if k < before.len() {
                assert(before[k] == now[k]);
            }
        }
        assert forall|k: int, l: int|
            #![trigger now[k], now[l]]
            0 <= k < l < now.len() implies now[k] < now[l] by {
            assert(before[k] == now[k]);
            if l < before.len() {
                assert(before[l] == now[l]);
            }
        }
    }
}

/// Lists of all matches whose matches are the same at every place are the same.
pub proof fn filter_map_agrees<U>(
    n: nat,
    f: spec_fn(int) -> Option<U>,
    g: spec_fn(int) -> Option<U>,
)
    requires
        forall|i: int| #![trigger f(i)] #![trigger g(i)] 0 <= i < n ==> f(i) == g(i),
    ensures
        places(n).filter_map(f) == places(n).filter_map(g),
    decreases n,
{
    if n > 0 {
        assert(places(n).drop_last() =~= places((n - 1) as nat));
        assert(f(n - 1) == g(n - 1));
        filter_map_agrees((n - 1) as nat, f, g);
    }
}

} // verus!
