//! Sorting that keeps the order of equal items.

use vstd::prelude::*;
use vstd::seq_lib::group_to_multiset_ensures;

verus! {

/// The items of `v` from the last to the first.
pub fn reversed<T>(v: Vec<T>) -> (r: Vec<T>)
    ensures
        r@ == v@.reverse(),
{
    let ghost n = v@.len() as int;
    let mut rest: Vec<T> = v;
    let mut out: Vec<T> = Vec::new();
    while rest.len() > 0
        invariant
            n == v@.len(),
            rest@ == v@.take(rest@.len() as int),
            rest@.len() + out@.len() == n,
            forall|k: int| 0 <= k < out@.len() ==> #[trigger] out@[k] == v@[n - 1 - k],
        decreases rest@.len(),
    {
        if let Some(x) = rest.pop() {
            out.push(x);
        }
    }
    assert(out@ =~= v@.reverse());
    out
}

/// `s` with `x` moved forward from the end past the items that do not come before it.
pub open spec fn inserted<T>(s: Seq<T>, x: T, le: spec_fn(T, T) -> bool) -> Seq<T>
    decreases s.len(),
{
    if s.len() == 0 || le(s.last(), x) {
        s.push(x)
    } else {
        inserted(s.drop_last(), x, le).push(s.last())
    }
}

/// `s` in the order of `le`, equal items in their old order.
pub open spec fn stable_sorted<T>(s: Seq<T>, le: spec_fn(T, T) -> bool) -> Seq<T>
    decreases s.len(),
{
    if s.len() == 0 {
        s
    } else {
        inserted(stable_sorted(s.drop_last(), le), s.last(), le)
    }
}

pub proof fn lemma_inserted_at<T>(s: Seq<T>, x: T, le: spec_fn(T, T) -> bool, i: int)
    requires
        0 <= i <= s.len(),
        i == 0 || le(s[i - 1], x),
        forall|k: int| i <= k < s.len() ==> !le(s[k], x),
    ensures
        inserted(s, x, le) == s.insert(i, x),
    decreases s.len(),
{
    if i == s.len() {
        assert(s.insert(i, x) =~= s.push(x));
    } else {
        lemma_inserted_at(s.drop_last(), x, le, i);
        assert(s.drop_last().insert(i, x).push(s.last()) =~= s.insert(i, x));
    }
}

/// Whether `le` compares any two items, and does so consistently.
pub open spec fn total_order<T>(le: spec_fn(T, T) -> bool) -> bool {
    &&& forall|a: T, b: T| #[trigger] le(a, b) || le(b, a)
    &&& forall|a: T, b: T, c: T| #[trigger] le(a, b) && #[trigger] le(b, c) ==> le(a, c)
}

/// Whether each item of `s` comes before the items behind it.
pub open spec fn is_sorted<T>(s: Seq<T>, le: spec_fn(T, T) -> bool) -> bool {
    forall|i: int, j: int| 0 <= i < j < s.len() ==> #[trigger] le(s[i], s[j])
}

proof fn lemma_inserted_sorted<T>(s: Seq<T>, x: T, le: spec_fn(T, T) -> bool)
    requires
        total_order(le),
        is_sorted(s, le),
    ensures
        is_sorted(inserted(s, x, le), le),
        inserted(s, x, le).len() == s.len() + 1,
        forall|k: int|
            0 <= k <= s.len() ==> #[trigger] inserted(s, x, le)[k] == x || s.contains(
                inserted(s, x, le)[k],
            ),
    decreases s.len(),
{
    let r = inserted(s, x, le);
    if s.len() == 0 {
    } else if le(s.last(), x) {
        assert forall|i: int, j: int| 0 <= i < j < r.len() implies #[trigger] le(r[i], r[j]) by {
            if j == s.len() {
                if i < s.len() - 1 {
                    assert(le(s[i], s[s.len() - 1]));
                }
                assert(le(s.last(), x));
            } else {
                assert(le(s[i], s[j]));
            }
        }
        assert forall|k: int| 0 <= k <= s.len()
            implies #[trigger] r[k] == x || s.contains(r[k]) by {
            if k < s.len() {
                assert(s[k] == r[k]);
            }
        }
    } else {
        let t = s.drop_last();
        assert forall|i: int, j: int| 0 <= i < j < t.len() implies #[trigger] le(t[i], t[j]) by {
            assert(le(s[i], s[j]));
        }
        lemma_inserted_sorted(t, x, le);
        let u = inserted(t, x, le);
        assert(r == u.push(s.last()));
        assert forall|k: int| 0 <= k < u.len() implies le(u[k], s.last()) && (#[trigger] u[k] == x
            || s.contains(u[k])) by {
            if u[k] == x {
                assert(le(s.last(), x) || le(x, s.last()));
            } else {
                let m = choose|m: int| 0 <= m < t.len() && t[m] == u[k];
                assert(s[m] == u[k]);
                assert(le(s[m], s[s.len() - 1]));
            }
        }
        assert forall|i: int, j: int| 0 <= i < j < r.len() implies #[trigger] le(r[i], r[j]) by {
            if j == u.len() {
                assert(u[i] == r[i]);
            } else {
                assert(le(u[i], u[j]));
            }
        }
        assert forall|k: int| 0 <= k <= s.len()
            implies #[trigger] r[k] == x || s.contains(r[k]) by {
            if k < u.len() {
                assert(r[k] == u[k]);
            } else {
                assert(r[k] == s[s.len() - 1]);
            }
        }
    }
}

/// Sorting gives a sorted list.
pub proof fn lemma_stable_sorted_is_sorted<T>(s: Seq<T>, le: spec_fn(T, T) -> bool)
    requires
        total_order(le),
    ensures
        is_sorted(stable_sorted(s, le), le),
        stable_sorted(s, le).len() == s.len(),
    decreases s.len(),
{
    if s.len() > 0 {
        lemma_stable_sorted_is_sorted(s.drop_last(), le);
        lemma_inserted_sorted(stable_sorted(s.drop_last(), le), s.last(), le);
    }
}

proof fn lemma_inserted_multiset<T>(s: Seq<T>, x: T, le: spec_fn(T, T) -> bool)
    ensures
        inserted(s, x, le).to_multiset() =~= s.to_multiset().insert(x),
    decreases s.len(),
{
    broadcast use group_to_multiset_ensures;

    if s.len() == 0 || le(s.last(), x) {
    } else {
        lemma_inserted_multiset(s.drop_last(), x, le);
        assert(s.drop_last().push(s.last()) =~= s);
        assert(s.to_multiset() =~= s.drop_last().to_multiset().insert(s.last()));
    }
}

/// Sorting neither adds nor drops items.
pub proof fn lemma_stable_sorted_multiset<T>(s: Seq<T>, le: spec_fn(T, T) -> bool)
    ensures
        stable_sorted(s, le).to_multiset() =~= s.to_multiset(),
    decreases s.len(),
{
    broadcast use group_to_multiset_ensures;

    if s.len() > 0 {
        lemma_stable_sorted_multiset(s.drop_last(), le);
        lemma_inserted_multiset(stable_sorted(s.drop_last(), le), s.last(), le);
        assert(s.drop_last().push(s.last()) =~= s);
    }
}

proof fn lemma_inserted_keeps<T>(
    s: Seq<T>,
    x: T,
    le: spec_fn(T, T) -> bool,
    class: spec_fn(T) -> bool,
)
    requires
        forall|a: T, b: T| class(a) && class(b) ==> #[trigger] le(a, b),
    ensures
        inserted(s, x, le).filter(class) == s.push(x).filter(class),
    decreases s.len(),
{
    reveal(Seq::filter);
    if s.len() == 0 || le(s.last(), x) {
    } else {
        let t = s.drop_last();
        lemma_inserted_keeps(t, x, le, class);
        let u = inserted(t, x, le);
        assert(u.push(s.last()).drop_last() =~= u);
        assert(t.push(x).drop_last() =~= t);
        assert(s.push(x).drop_last() =~= s);
        assert(!(class(x) && class(s.last())));
        assert(s.filter(class) == if class(s.last()) {
            t.filter(class).push(s.last())
        } else {
            t.filter(class)
        });
        assert(s.push(x).filter(class) == if class(x) {
            s.filter(class).push(x)
        } else {
            s.filter(class)
        });
        assert(t.push(x).filter(class) == if class(x) {
            t.filter(class).push(x)
        } else {
            t.filter(class)
        });
        assert(u.push(s.last()).filter(class) == if class(s.last()) {
            u.filter(class).push(s.last())
        } else {
            u.filter(class)
        });
    }
}

/// Sorting keeps the order of items that compare as equal.
pub proof fn lemma_stable_sorted_keeps<T>(
    s: Seq<T>,
    le: spec_fn(T, T) -> bool,
    class: spec_fn(T) -> bool,
)
    requires
        forall|a: T, b: T| class(a) && class(b) ==> #[trigger] le(a, b),
    ensures
        stable_sorted(s, le).filter(class) == s.filter(class),
    decreases s.len(),
{
    reveal(Seq::filter);
    if s.len() > 0 {
        let t = s.drop_last();
        lemma_stable_sorted_keeps(t, le, class);
        lemma_inserted_keeps(stable_sorted(t, le), s.last(), le, class);
        let u = stable_sorted(t, le);
        assert(u.push(s.last()).drop_last() =~= u);
    }
}

} // verus!
