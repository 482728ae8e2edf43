//! Facts about sequences that the other modules share.

use vstd::prelude::*;
use vstd::seq_lib::*;

use crate::sorting::views;

verus! {

/// `i` is the position of the first element with the property `p`.
pub open spec fn is_first_where<T>(s: Seq<T>, p: spec_fn(T) -> bool, i: int) -> bool {
    &&& 0 <= i < s.len()
    &&& p(s[i])
    &&& forall|j: int| 0 <= j < i ==> !p(#[trigger] s[j])
}

/// The position of the first element with the property `p`, if there is one.
pub open spec fn first_where<T>(s: Seq<T>, p: spec_fn(T) -> bool) -> Option<int> {
    if exists|i: int| is_first_where(s, p, i) {
        Some(choose|i: int| is_first_where(s, p, i))
    } else {
        None
    }
}

pub proof fn first_where_is<T>(s: Seq<T>, p: spec_fn(T) -> bool, i: int)
    requires
        is_first_where(s, p, i),
    ensures
        first_where(s, p) == Some(i),
{
    let c = choose|c: int| is_first_where(s, p, c);
    assert(is_first_where(s, p, c));
    if c < i {
        assert(!p(s[c]));
    } else if i < c {
        assert(!p(s[i]));
    }
}

pub proof fn first_where_is_none<T>(s: Seq<T>, p: spec_fn(T) -> bool)
    requires
        forall|j: int| 0 <= j < s.len() ==> !p(#[trigger] s[j]),
    ensures
        first_where(s, p) is None,
{
    if exists|i: int| is_first_where(s, p, i) {
        let i = choose|i: int| is_first_where(s, p, i);
        assert(!p(s[i]));
    }
}

/// Where some element has the property, the first that has it is found.
pub proof fn first_where_exists<T>(s: Seq<T>, p: spec_fn(T) -> bool, k: int)
    requires
        0 <= k < s.len(),
        p(s[k]),
    ensures
        first_where(s, p) matches Some(i) && is_first_where(s, p, i) && i <= k,
    decreases k,
{
    if exists|j: int| 0 <= j < k && p(#[trigger] s[j]) {
        let j = choose|j: int| 0 <= j < k && p(#[trigger] s[j]);
        first_where_exists(s, p, j);
    } else {
        assert(is_first_where(s, p, k));
        first_where_is(s, p, k);
    }
}

/// `i` is the position of the last element with the property `p`.
pub open spec fn is_last_where<T>(s: Seq<T>, p: spec_fn(T) -> bool, i: int) -> bool {
    &&& 0 <= i < s.len()
    &&& p(s[i])
    &&& forall|j: int| i < j < s.len() ==> !p(#[trigger] s[j])
}

/// The position of the last element with the property `p`, if there is one.
pub open spec fn last_where<T>(s: Seq<T>, p: spec_fn(T) -> bool) -> Option<int> {
    if exists|i: int| is_last_where(s, p, i) {
        Some(choose|i: int| is_last_where(s, p, i))
    } else {
        None
    }
}

pub proof fn last_where_is<T>(s: Seq<T>, p: spec_fn(T) -> bool, i: int)
    requires
        is_last_where(s, p, i),
    ensures
        last_where(s, p) == Some(i),
{
    let c = choose|c: int| is_last_where(s, p, c);
    assert(is_last_where(s, p, c));
    if c < i {
        assert(!p(s[i]));
    } else if i < c {
        assert(!p(s[c]));
    }
}

pub proof fn last_where_is_none<T>(s: Seq<T>, p: spec_fn(T) -> bool)
    requires
        forall|j: int| 0 <= j < s.len() ==> !p(#[trigger] s[j]),
    ensures
        last_where(s, p) is None,
{
    if exists|i: int| is_last_where(s, p, i) {
        let i = choose|i: int| is_last_where(s, p, i);
        assert(!p(s[i]));
    }
}

/// Where some element has the property, the last that has it is found.
pub proof fn last_where_exists<T>(s: Seq<T>, p: spec_fn(T) -> bool, k: int)
    requires
        0 <= k < s.len(),
        p(s[k]),
    ensures
        last_where(s, p) matches Some(i) && is_last_where(s, p, i) && i >= k,
    decreases s.len() - k,
{
    if exists|j: int| k < j < s.len() && p(#[trigger] s[j]) {
        let j = choose|j: int| k < j < s.len() && p(#[trigger] s[j]);
        last_where_exists(s, p, j);
    } else {
        assert(is_last_where(s, p, k));
        last_where_is(s, p, k);
    }
}

pub proof fn filter_push<T>(s: Seq<T>, p: spec_fn(T) -> bool, x: T)
    ensures
        s.push(x).filter(p) == (if p(x) {
            s.filter(p).push(x)
        } else {
            s.filter(p)
        }),
{
    reveal(Seq::filter);
    assert(s.push(x).drop_last() == s);
}

pub proof fn filter_has<T>(s: Seq<T>, p: spec_fn(T) -> bool, x: T)
    ensures
        s.filter(p).contains(x) <==> s.contains(x) && p(x),
    decreases s.len(),
{
    reveal(Seq::filter);
    if s.len() > 0 {
        let rest = s.drop_last();
        filter_has(rest, p, x);
        assert(s == rest.push(s.last()));
        if s.contains(x) {
            let k = choose|k: int| 0 <= k < s.len() && s[k] == x;
            if k < rest.len() {
                assert(rest[k] == x);
            }
        }
        if rest.contains(x) {
            let k = choose|k: int| 0 <= k < rest.len() && rest[k] == x;
            assert(s[k] == x);
        }
        assert(s[s.len() - 1] == s.last());
        if p(s.last()) {
            let f = rest.filter(p);
            assert(f.push(s.last())[f.len() as int] == s.last());
            if f.contains(x) {
                let k = choose|k: int| 0 <= k < f.len() && f[k] == x;
                assert(f.push(s.last())[k] == x);
            }
        }
    }
}

/// Filtering by one property and by another that is harder to meet is filtering by the other.
pub proof fn filter_by_more<T>(s: Seq<T>, p: spec_fn(T) -> bool, q: spec_fn(T) -> bool)
    requires
        forall|x: T| #[trigger] q(x) ==> p(x),
    ensures
        s.filter(p).filter(q) == s.filter(q),
    decreases s.len(),
{
    reveal(Seq::filter);
    if s.len() > 0 {
        filter_by_more(s.drop_last(), p, q);
        if p(s.last()) {
            filter_push(s.drop_last().filter(p), q, s.last());
        }
    }
}

pub proof fn filter_all<T>(s: Seq<T>, p: spec_fn(T) -> bool)
    requires
        forall|k: int| 0 <= k < s.len() ==> p(#[trigger] s[k]),
    ensures
        s.filter(p) == s,
    decreases s.len(),
{
    reveal(Seq::filter);
    if s.len() > 0 {
        let rest = s.drop_last();
        assert forall|k: int| 0 <= k < rest.len() implies p(#[trigger] rest[k]) by {
            assert(p(s[k]));
        }
        filter_all(rest, p);
        assert(p(s[s.len() - 1]));
        assert(s == rest.push(s.last()));
    }
}

pub proof fn filter_len<T>(s: Seq<T>, p: spec_fn(T) -> bool)
    ensures
        s.filter(p).len() <= s.len(),
        s.filter(p).len() == s.len() ==> s.filter(p) == s,
    decreases s.len(),
{
    reveal(Seq::filter);
    if s.len() > 0 {
        filter_len(s.drop_last(), p);
        assert(s == s.drop_last().push(s.last()));
    }
}

pub proof fn views_push<T: View>(s: Seq<T>, x: T)
    ensures
        views(s.push(x)) == views(s).push(x@),
{
    assert(views(s.push(x)) == views(s).push(x@));
}

/// Keeps the elements that are marked, which are those with the property `p`.
pub(crate) fn keep_marked<T: View>(
    v: &mut Vec<T>,
    marks: &Vec<bool>,
    Ghost(p): Ghost<spec_fn(T::V) -> bool>,
)
    requires
        marks@.len() == old(v)@.len(),
        forall|k: int| 0 <= k < marks@.len() ==> #[trigger] marks@[k] == p(old(v)@[k]@),
    ensures
        views(final(v)@) == views(old(v)@).filter(p),
{
    let ghost all = views(v@);
    let mut i: usize = 0;
    let mut k: usize = 0;
    assert(all.take(0).filter(p) == Seq::<T::V>::empty()) by {
        reveal(Seq::filter);
    }
    assert(all.take(0).filter(p) + all.skip(0) == all);
    while k < marks.len()
        invariant
            k <= marks@.len(),
            marks@.len() == all.len(),
            all == views(old(v)@),
            forall|n: int| 0 <= n < marks@.len() ==> #[trigger] marks@[n] == p(old(v)@[n]@),
            i == all.take(k as int).filter(p).len(),
            views(v@) == all.take(k as int).filter(p) + all.skip(k as int),
        decreases marks.len() - k,
    {
        let ghost kept = all.take(k as int).filter(p);
        let ghost v0 = v@;
        assert(views(v@)[i as int] == all[k as int]) by {
            assert(all.skip(k as int)[0] == all[k as int]);
        }
        assert(views(v@).len() == v@.len());
        proof {
            filter_push(all.take(k as int), p, all[k as int]);
            assert(all.take(k as int).push(all[k as int]) == all.take(k + 1));
            assert(all[k as int] == old(v)@[k as int]@);
        }
        if marks[k] {
            assert(kept.push(all[k as int]) + all.skip(k + 1) == kept + all.skip(k as int));
            i += 1;
        } else {
            let _gone = v.remove(i);
            assert(views(v@) == views(v0).remove(i as int));
            assert(kept + all.skip(k + 1) == (kept + all.skip(k as int)).remove(i as int));
        }
        k += 1;
    }
    assert(all.take(k as int) == all);
    assert(all.filter(p) + all.skip(k as int) == all.filter(p));
}

} // verus!
