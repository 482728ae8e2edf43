//! Stable sorting, and the keys that the lists of tasks are sorted by.

use vstd::multiset::*;
use vstd::prelude::*;
use vstd::seq_lib::*;

use crate::text::{chars_less, lex_less, lex_less_irreflexive, lex_less_total, lex_less_transitive};

verus! {

/// `sorted` with `x` in front of the first element that does not come before `x`.
pub open spec fn insert_in_order<T>(x: T, sorted: Seq<T>, less: spec_fn(T, T) -> bool) -> Seq<T>
    decreases sorted.len(),
{
    if sorted.len() > 0 && less(sorted[0], x) {
        seq![sorted[0]] + insert_in_order(x, sorted.drop_first(), less)
    } else {
        seq![x] + sorted
    }
}

/// The elements of `s` in the order `less`; elements of which neither comes before the other keep
/// the order that they have in `s`.
pub open spec fn stable_sort<T>(s: Seq<T>, less: spec_fn(T, T) -> bool) -> Seq<T>
    decreases s.len(),
{
    if s.len() == 0 {
        s
    } else {
        insert_in_order(s[0], stable_sort(s.drop_first(), less), less)
    }
}

/// `less` orders its elements up to ties.
pub open spec fn is_weak_order<T>(less: spec_fn(T, T) -> bool) -> bool {
    &&& forall|a: T, b: T| #[trigger] less(a, b) ==> !less(b, a)
    &&& forall|a: T, b: T, c: T| #[trigger] less(a, b) ==> #[trigger] less(a, c) || less(c, b)
}

/// No element stands after one that it comes before.
pub open spec fn is_sorted<T>(s: Seq<T>, less: spec_fn(T, T) -> bool) -> bool {
    forall|i: int, j: int| 0 <= i < j < s.len() ==> !less(#[trigger] s[j], #[trigger] s[i])
}

/// Those that tie with `x`.
pub open spec fn ties_with<T>(x: T, less: spec_fn(T, T) -> bool) -> spec_fn(T) -> bool {
    |y: T| !less(x, y) && !less(y, x)
}

proof fn insert_in_order_sorted<T>(x: T, s: Seq<T>, less: spec_fn(T, T) -> bool)
    requires
        is_weak_order(less),
        is_sorted(s, less),
    ensures
        is_sorted(insert_in_order(x, s, less), less),
        insert_in_order(x, s, less).to_multiset() == s.to_multiset().insert(x),
        insert_in_order(x, s, less).len() == s.len() + 1,
        forall|i: int|
            0 <= i < s.len() + 1 ==> #[trigger] insert_in_order(x, s, less)[i] == x || s.contains(
                insert_in_order(x, s, less)[i],
            ),
    decreases s.len(),
{
    broadcast use group_to_multiset_ensures;

    let out = insert_in_order(x, s, less);
    if s.len() > 0 && less(s[0], x) {
        let rest = s.drop_first();
        assert forall|i: int, j: int| 0 <= i < j < rest.len() implies !less(
            #[trigger] rest[j],
            #[trigger] rest[i],
        ) by {
            assert(!less(s[j + 1], s[i + 1]));
        }
        insert_in_order_sorted(x, rest, less);
        let tail = insert_in_order(x, rest, less);
        assert forall|i: int, j: int| 0 <= i < j < out.len() implies !less(
            #[trigger] out[j],
            #[trigger] out[i],
        ) by {
            assert(out[j] == tail[j - 1]);
            if i == 0 {
                if tail[j - 1] != x {
                    let k = choose|k: int| 0 <= k < rest.len() && rest[k] == tail[j - 1];
                    assert(!less(s[k + 1], s[0]));
                }
            } else {
                assert(out[i] == tail[i - 1]);
            }
        }
        assert forall|i: int| 0 <= i < s.len() + 1 implies #[trigger] out[i] == x || s.contains(
            out[i],
        ) by {
            if i > 0 {
                assert(out[i] == tail[i - 1]);
                if out[i] != x {
                    let k = choose|k: int| 0 <= k < rest.len() && rest[k] == tail[i - 1];
                    assert(s[k + 1] == out[i]);
                }
            } else {
                assert(s[0] == out[0]);
            }
        }
        assert(s == seq![s[0]] + rest);
        lemma_multiset_commutative(seq![s[0]], rest);
        lemma_multiset_commutative(seq![s[0]], tail);
        assert(out.to_multiset() =~= s.to_multiset().insert(x));
    } else {
        assert forall|i: int, j: int| 0 <= i < j < out.len() implies !less(
            #[trigger] out[j],
            #[trigger] out[i],
        ) by {
            assert(out[j] == s[j - 1]);
            if i == 0 {
                if j > 1 {
                    assert(!less(s[j - 1], s[0]));
                }
            } else {
                assert(out[i] == s[i - 1]);
            }
        }
        assert forall|i: int| 0 <= i < s.len() + 1 implies #[trigger] out[i] == x || s.contains(
            out[i],
        ) by {
            if i > 0 {
                assert(out[i] == s[i - 1]);
            }
        }
        lemma_multiset_commutative(seq![x], s);
        assert(seq![x].to_multiset() =~= Multiset::singleton(x)) by {
            assert(seq![x] == Seq::<T>::empty().push(x));
        }
        assert(out.to_multiset() =~= s.to_multiset().insert(x));
    }
}

proof fn filter_of_cons<T>(x: T, s: Seq<T>, p: spec_fn(T) -> bool)
    ensures
        (seq![x] + s).filter(p) == (if p(x) {
            seq![x] + s.filter(p)
        } else {
            s.filter(p)
        }),
{
    Seq::filter_distributes_over_add(seq![x], s, p);
    reveal_with_fuel(Seq::filter, 2);
    assert(seq![x].drop_last() == Seq::<T>::empty());
    if p(x) {
        assert(seq![x].filter(p) == seq![x]);
    } else {
        assert(seq![x].filter(p) + s.filter(p) == s.filter(p));
    }
}

proof fn insert_in_order_keeps_ties<T>(x: T, s: Seq<T>, z: T, less: spec_fn(T, T) -> bool)
    requires
        is_weak_order(less),
    ensures
        insert_in_order(x, s, less).filter(ties_with(z, less)) == (seq![x] + s).filter(
            ties_with(z, less),
        ),
    decreases s.len(),
{
    let p = ties_with(z, less);
    if s.len() > 0 && less(s[0], x) {
        let rest = s.drop_first();
        insert_in_order_keeps_ties(x, rest, z, less);
        filter_of_cons(s[0], insert_in_order(x, rest, less), p);
        filter_of_cons(x, rest, p);
        filter_of_cons(x, s, p);
        filter_of_cons(s[0], rest, p);
        assert(s == seq![s[0]] + rest);
        assert(!(p(x) && p(s[0])));
    }
}

/// Sorting gives the same elements, none standing after one that it comes before, and those that
/// tie in the order that they had.
pub proof fn stable_sort_sorts<T>(s: Seq<T>, less: spec_fn(T, T) -> bool)
    requires
        is_weak_order(less),
    ensures
        is_sorted(stable_sort(s, less), less),
        stable_sort(s, less).to_multiset() == s.to_multiset(),
        stable_sort(s, less).len() == s.len(),
        forall|z: T|
            stable_sort(s, less).filter(#[trigger] ties_with(z, less)) == s.filter(
                ties_with(z, less),
            ),
    decreases s.len(),
{
    broadcast use group_to_multiset_ensures;

    if s.len() > 0 {
        let rest = s.drop_first();
        let sorted_rest = stable_sort(rest, less);
        stable_sort_sorts(rest, less);
        insert_in_order_sorted(s[0], sorted_rest, less);
        assert(s == seq![s[0]] + rest);
        lemma_multiset_commutative(seq![s[0]], rest);
        assert(seq![s[0]] == Seq::<T>::empty().push(s[0]));
        assert(s.to_multiset() =~= rest.to_multiset().insert(s[0]));
        assert forall|z: T|
            stable_sort(s, less).filter(#[trigger] ties_with(z, less)) == s.filter(
                ties_with(z, less),
            ) by {
            insert_in_order_keeps_ties(s[0], sorted_rest, z, less);
            filter_of_cons(s[0], sorted_rest, ties_with(z, less));
            filter_of_cons(s[0], rest, ties_with(z, less));
        }
    }
}

/// Sorting leaves nothing out and brings nothing in.
pub proof fn sorting_keeps<T>(s: Seq<T>, less: spec_fn(T, T) -> bool, x: T)
    requires
        is_weak_order(less),
    ensures
        stable_sort(s, less).contains(x) <==> s.contains(x),
{
    broadcast use group_to_multiset_ensures;

    stable_sort_sorts(s, less);
    assert(stable_sort(s, less).contains(x) <==> stable_sort(s, less).to_multiset().count(x) > 0);
    assert(s.contains(x) <==> s.to_multiset().count(x) > 0);
}

/// What a row is sorted by: two numbers, then a text.
pub struct SortKey {
    pub major: i128,
    pub minor: i64,
    pub text: Vec<char>,
}

/// What a row is sorted by, as mathematical values.
pub struct KeyModel {
    pub major: int,
    pub minor: int,
    pub text: Seq<char>,
}

impl View for SortKey {
    type V = KeyModel;

    open spec fn view(&self) -> KeyModel {
        KeyModel { major: self.major as int, minor: self.minor as int, text: self.text@ }
    }
}

/// Keys are ordered by the first number, then by the second, then by the text.
pub open spec fn key_less(a: KeyModel, b: KeyModel) -> bool {
    if a.major != b.major {
        a.major < b.major
    } else if a.minor != b.minor {
        a.minor < b.minor
    } else {
        lex_less(a.text, b.text)
    }
}

/// The order of keys, or the same turned round.
pub open spec fn key_before(a: KeyModel, b: KeyModel, reversed: bool) -> bool {
    if reversed {
        key_less(b, a)
    } else {
        key_less(a, b)
    }
}

impl SortKey {
    /// Tells whether this key comes before another.
    pub fn less(&self, other: &SortKey) -> (res: bool)
        ensures
            res == key_less(self@, other@),
    {
        if self.major != other.major {
            self.major < other.major
        } else if self.minor != other.minor {
            self.minor < other.minor
        } else {
            chars_less(&self.text, &other.text)
        }
    }

    /// Tells whether this key comes before another in the order, or in the same turned round.
    pub fn before(&self, other: &SortKey, reversed: bool) -> (res: bool)
        ensures
            res == key_before(self@, other@, reversed),
    {
        if reversed {
            other.less(self)
        } else {
            self.less(other)
        }
    }
}

proof fn lex_less_asymmetric(a: Seq<char>, b: Seq<char>)
    requires
        lex_less(a, b),
    ensures
        !lex_less(b, a),
{
    if lex_less(b, a) {
        lex_less_transitive(a, b, a);
        lex_less_irreflexive(a);
    }
}

proof fn lex_less_splits(a: Seq<char>, b: Seq<char>, c: Seq<char>)
    requires
        lex_less(a, b),
    ensures
        lex_less(a, c) || lex_less(c, b),
{
    lex_less_total(a, c);
    if lex_less(c, a) {
        lex_less_transitive(c, a, b);
    }
}

/// An order that compares keys orders its elements up to ties.
pub proof fn key_order_is_weak<T>(
    less: spec_fn(T, T) -> bool,
    key: spec_fn(T) -> KeyModel,
    reversed: bool,
)
    requires
        forall|a: T, b: T| #[trigger] less(a, b) == key_before(key(a), key(b), reversed),
    ensures
        is_weak_order(less),
{
    assert forall|a: T, b: T| #[trigger] less(a, b) implies !less(b, a) by {
        let x = key(a).text;
        let y = key(b).text;
        if lex_less(x, y) {
            lex_less_asymmetric(x, y);
        }
        if lex_less(y, x) {
            lex_less_asymmetric(y, x);
        }
    }
    assert forall|a: T, b: T, c: T| #[trigger] less(a, b) implies #[trigger] less(a, c) || less(
        c,
        b,
    ) by {
        let x = key(a).text;
        let y = key(b).text;
        let z = key(c).text;
        if lex_less(x, y) {
            lex_less_splits(x, y, z);
        }
        if lex_less(y, x) {
            lex_less_splits(y, x, z);
        }
    }
}

/// The views of the elements of a sequence.
pub open spec fn views<T: View>(s: Seq<T>) -> Seq<T::V> {
    s.map_values(|x: T| x@)
}

proof fn insert_in_order_at<T>(x: T, s: Seq<T>, less: spec_fn(T, T) -> bool, at: int)
    requires
        0 <= at <= s.len(),
        forall|i: int| 0 <= i < at ==> less(#[trigger] s[i], x),
        at < s.len() ==> !less(s[at], x),
    ensures
        insert_in_order(x, s, less) == s.insert(at, x),
    decreases at,
{
    if at > 0 {
        assert(less(s[0], x));
        assert forall|i: int| 0 <= i < at - 1 implies less(#[trigger] s.drop_first()[i], x) by {
            assert(less(s[i + 1], x));
        }
        insert_in_order_at(x, s.drop_first(), less, at - 1);
        assert(seq![s[0]] + s.drop_first().insert(at - 1, x) == s.insert(at, x));
    } else {
        assert(seq![x] + s == s.insert(0, x));
    }
}

/// The rows in the order of their keys, or in the same turned round; rows whose keys are equal keep
/// their order.
pub(crate) fn sort_by_keys<T: View>(
    rows: Vec<T>,
    keys: Vec<SortKey>,
    reversed: bool,
    Ghost(less): Ghost<spec_fn(T::V, T::V) -> bool>,
) -> (res: Vec<T>)
    requires
        rows@.len() == keys@.len(),
        forall|i: int, j: int|
            0 <= i < rows@.len() && 0 <= j < rows@.len() ==> less(
                #[trigger] rows@[i]@,
                #[trigger] rows@[j]@,
            ) == key_before(keys@[i]@, keys@[j]@, reversed),
    ensures
        views(res@) == stable_sort(views(rows@), less),
{
    let mut rows = rows;
    let mut keys = keys;
    let ghost all = views(rows@);
    let mut res: Vec<T> = Vec::new();
    let mut res_keys: Vec<SortKey> = Vec::new();
    assert(all.skip(all.len() as int) == Seq::<T::V>::empty());
    assert(views(res@) == Seq::<T::V>::empty());
    while rows.len() > 0
        invariant
            rows@.len() == keys@.len(),
            rows@.len() <= all.len(),
            res@.len() == res_keys@.len(),
            views(rows@) == all.take(rows@.len() as int),
            views(res@) == stable_sort(all.skip(rows@.len() as int), less),
            forall|i: int, j: int|
                0 <= i < rows@.len() && 0 <= j < rows@.len() ==> less(
                    #[trigger] rows@[i]@,
                    #[trigger] rows@[j]@,
                ) == key_before(keys@[i]@, keys@[j]@, reversed),
            forall|i: int, j: int|
                0 <= i < res@.len() && 0 <= j < rows@.len() ==> less(
                    #[trigger] res@[i]@,
                    #[trigger] rows@[j]@,
                ) == key_before(res_keys@[i]@, keys@[j]@, reversed),
        decreases rows.len(),
    {
        let ghost rows0 = rows@;
        let ghost res0 = res@;
        let ghost keys0 = keys@;
        let ghost n = rows@.len() - 1;
        let last: usize = rows.len() - 1;
        let row = rows.remove(last);
        let key = keys.remove(last);
        assert(rows@ == rows0.take(n));
        assert(keys@ == keys0.take(n));
        assert(rows0[n] == row && keys0[n] == key);
        let mut at: usize = 0;
        while at < res.len() && res_keys[at].before(&key, reversed)
            invariant
                at <= res@.len(),
                res@.len() == res_keys@.len(),
                forall|i: int|
                    0 <= i < res@.len() ==> less(#[trigger] res@[i]@, row@) == key_before(
                        res_keys@[i]@,
                        key@,
                        reversed,
                    ),
                forall|i: int| 0 <= i < at ==> less(#[trigger] res@[i]@, row@),
            decreases res.len() - at,
        {
            assert(less(res@[at as int]@, row@));
            at += 1;
        }
        proof {
            let s = views(res@);
            assert forall|i: int| 0 <= i < at implies less(#[trigger] s[i], row@) by {
                assert(less(res@[i]@, row@));
            }
            if at < s.len() {
                assert(s[at as int] == res@[at as int]@);
            }
            insert_in_order_at(row@, s, less, at as int);
            assert(all[n] == views(rows0)[n]);
            assert(all.skip(n).drop_first() == all.skip(n + 1));
            assert(all.skip(n)[0] == row@);
        }
        res.insert(at, row);
        res_keys.insert(at, key);
        proof {
            assert(views(res@) == views(res0).insert(at as int, row@));
            assert(views(rows@) == all.take(n)) by {
                assert forall|i: int| 0 <= i < n implies views(rows@)[i] == all.take(n)[i] by {
                    assert(views(rows0)[i] == all[i]);
                }
            }
            assert forall|i: int, j: int|
                0 <= i < res@.len() && 0 <= j < rows@.len() implies less(
                #[trigger] res@[i]@,
                #[trigger] rows@[j]@,
            ) == key_before(res_keys@[i]@, keys@[j]@, reversed) by {
                assert(rows@[j] == rows0[j]);
                assert(keys@[j] == keys0[j]);
                if i < at {
                    assert(res@[i] == res0[i]);
                } else if i == at {
                    assert(res@[i] == rows0[n]);
                } else {
                    assert(res@[i] == res0[i - 1]);
                }
            }
        }
    }
    assert(all.skip(0) == all);
    res
}

} // verus!
