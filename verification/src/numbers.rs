//! The numbers that lists and tasks are known by: each its own, and none of them zero.

use std::collections::HashSet;

use vstd::prelude::*;

verus! {

/// The largest of some numbers, or zero where there are none.
pub open spec fn top_number(ids: Seq<u64>) -> nat
    decreases ids.len(),
{
    if ids.len() == 0 {
        0
    } else if ids.last() > top_number(ids.drop_last()) {
        ids.last() as nat
    } else {
        top_number(ids.drop_last())
    }
}

/// The number at `i` cannot stay: it is zero, or one before it is the same.
pub open spec fn is_taken(ids: Seq<u64>, i: int) -> bool {
    ids[i] == 0 || exists|j: int| 0 <= j < i && #[trigger] ids[j] == ids[i]
}

/// How many of the first `n` numbers cannot stay.
pub open spec fn taken_before(ids: Seq<u64>, n: int) -> nat
    decreases n,
{
    if n <= 0 {
        0
    } else {
        taken_before(ids, n - 1) + (if is_taken(ids, n - 1) {
            1nat
        } else {
            0nat
        })
    }
}

/// There are enough numbers left above the largest for those that cannot stay, and for one more.
pub open spec fn numbers_fit(ids: Seq<u64>) -> bool {
    top_number(ids) + 1 + taken_before(ids, ids.len() as int) <= u64::MAX
}

/// The number that replaces the one at `i`: it stays, or the next above the largest that is not
/// given away yet takes its place.
pub open spec fn own_number(ids: Seq<u64>, i: int) -> u64 {
    if is_taken(ids, i) {
        (top_number(ids) + 1 + taken_before(ids, i)) as u64
    } else {
        ids[i]
    }
}

/// The numbers that replace the given ones.
pub open spec fn own_numbers(ids: Seq<u64>) -> Seq<u64> {
    Seq::new(ids.len(), |i: int| own_number(ids, i))
}

pub proof fn top_number_is_top(ids: Seq<u64>, i: int)
    requires
        0 <= i < ids.len(),
    ensures
        ids[i] <= top_number(ids),
    decreases ids.len(),
{
    if i < ids.len() - 1 {
        top_number_is_top(ids.drop_last(), i);
        assert(ids.drop_last()[i] == ids[i]);
    }
}

/// A bound of all numbers bounds the largest.
pub proof fn top_number_is_least(ids: Seq<u64>, bound: nat)
    requires
        forall|i: int| 0 <= i < ids.len() ==> #[trigger] ids[i] <= bound,
    ensures
        top_number(ids) <= bound,
    decreases ids.len(),
{
    if ids.len() > 0 {
        assert forall|i: int| 0 <= i < ids.drop_last().len() implies #[trigger] ids.drop_last()[i]
            <= bound by {
            assert(ids[i] <= bound);
        }
        top_number_is_least(ids.drop_last(), bound);
        assert(ids[ids.len() - 1] <= bound);
    }
}

proof fn taken_before_grows(ids: Seq<u64>, m: int, n: int)
    requires
        0 <= m <= n,
    ensures
        taken_before(ids, m) <= taken_before(ids, n),
    decreases n - m,
{
    if m < n {
        taken_before_grows(ids, m, n - 1);
    }
}

pub proof fn own_number_above(ids: Seq<u64>, i: int)
    requires
        0 <= i < ids.len(),
        numbers_fit(ids),
        is_taken(ids, i),
    ensures
        own_number(ids, i) == top_number(ids) + 1 + taken_before(ids, i),
        own_number(ids, i) < top_number(ids) + 1 + taken_before(ids, i + 1),
        taken_before(ids, i + 1) <= taken_before(ids, ids.len() as int),
{
    taken_before_grows(ids, i + 1, ids.len() as int);
}

/// No number that replaces another is zero, and no two of them are the same.
pub proof fn own_numbers_differ(ids: Seq<u64>, i: int, j: int)
    requires
        numbers_fit(ids),
        0 <= i < j < ids.len(),
    ensures
        own_numbers(ids)[i] != 0,
        own_numbers(ids)[j] != 0,
        own_numbers(ids)[i] != own_numbers(ids)[j],
{
    top_number_is_top(ids, i);
    top_number_is_top(ids, j);
    if is_taken(ids, i) {
        own_number_above(ids, i);
    }
    if is_taken(ids, j) {
        own_number_above(ids, j);
    }
    taken_before_grows(ids, i + 1, j);
}

/// A number other than zero that stands nowhere before stays.
pub proof fn own_number_stays(ids: Seq<u64>, i: int)
    requires
        0 <= i < ids.len(),
        ids[i] != 0,
        forall|j: int| 0 <= j < i ==> #[trigger] ids[j] != ids[i],
    ensures
        own_numbers(ids)[i] == ids[i],
{
}

/// A number is replaced by another just where it cannot stay.
pub proof fn own_number_changes(ids: Seq<u64>, i: int)
    requires
        0 <= i < ids.len(),
        numbers_fit(ids),
    ensures
        own_number(ids, i) != ids[i] <==> is_taken(ids, i),
{
    top_number_is_top(ids, i);
    if is_taken(ids, i) {
        own_number_above(ids, i);
    }
}

/// There is a number above all that replace others.
pub proof fn own_numbers_leave_one(ids: Seq<u64>)
    requires
        numbers_fit(ids),
    ensures
        top_number(own_numbers(ids)) < u64::MAX,
{
    let bound = (u64::MAX - 1) as nat;
    assert forall|i: int| 0 <= i < own_numbers(ids).len() implies #[trigger] own_numbers(ids)[i]
        <= bound by {
        top_number_is_top(ids, i);
        if is_taken(ids, i) {
            own_number_above(ids, i);
        }
    }
    top_number_is_least(own_numbers(ids), bound);
}

/// The largest of some numbers, or zero where there are none.
pub fn largest(ids: &Vec<u64>) -> (res: u64)
    ensures
        res == top_number(ids@),
{
    let mut res: u64 = 0;
    let mut i: usize = 0;
    while i < ids.len()
        invariant
            i <= ids@.len(),
            res == top_number(ids@.take(i as int)),
        decreases ids.len() - i,
    {
        assert(ids@.take(i + 1).drop_last() == ids@.take(i as int));
        if ids[i] > res {
            res = ids[i];
        }
        i += 1;
    }
    assert(ids@.take(i as int) == ids@);
    res
}

/// Tells whether there are enough numbers left for those that cannot stay, and for one more.
pub fn do_numbers_fit(ids: &Vec<u64>) -> (res: bool)
    ensures
        res == numbers_fit(ids@),
{
    broadcast use vstd::std_specs::hash::group_hash_axioms;

    let top: u64 = largest(ids);
    if top == u64::MAX {
        return false;
    }
    let mut left: u64 = u64::MAX - 1 - top;
    let mut used: HashSet<u64> = HashSet::new();
    let mut i: usize = 0;
    while i < ids.len()
        invariant
            i <= ids@.len(),
            top == top_number(ids@),
            left + taken_before(ids@, i as int) == u64::MAX - 1 - top,
            forall|x: u64|
                used@.contains(x) <==> x != 0 && exists|j: int| 0 <= j < i && #[trigger] ids@[j] == x,
        decreases ids.len() - i,
    {
        broadcast use vstd::std_specs::hash::group_hash_axioms;

        let ghost used0 = used@;
        let id: u64 = ids[i];
        if id == 0 || !used.insert(id) {
            assert(is_taken(ids@, i as int));
            if left == 0 {
                proof {
                    taken_before_grows(ids@, i + 1, ids@.len() as int);
                }
                return false;
            }
            left -= 1;
        } else {
            assert(!is_taken(ids@, i as int));
        }
        assert(forall|x: u64|
            used@.contains(x) <==> x != 0 && exists|j: int|
                0 <= j < i + 1 && #[trigger] ids@[j] == x) by {
            assert forall|x: u64| used@.contains(x) implies x != 0 && exists|j: int|
                0 <= j < i + 1 && #[trigger] ids@[j] == x by {
                if x == id && !used0.contains(x) {
                    assert(ids@[i as int] == x);
                } else {
                    let j = choose|j: int| 0 <= j < i && #[trigger] ids@[j] == x;
                    assert(ids@[j] == x);
                }
            }
        }
        i += 1;
    }
    true
}

/// The numbers that replace the given ones.
pub fn with_own_numbers(ids: &Vec<u64>) -> (res: Vec<u64>)
    requires
        numbers_fit(ids@),
    ensures
        res@ == own_numbers(ids@),
{
    broadcast use vstd::std_specs::hash::group_hash_axioms;

    let top: u64 = largest(ids);
    let mut next: u64 = top + 1;
    let mut used: HashSet<u64> = HashSet::new();
    let mut res: Vec<u64> = Vec::new();
    let mut i: usize = 0;
    while i < ids.len()
        invariant
            i <= ids@.len(),
            numbers_fit(ids@),
            next == top_number(ids@) + 1 + taken_before(ids@, i as int),
            res@.len() == i,
            forall|j: int| 0 <= j < i ==> #[trigger] res@[j] == own_number(ids@, j),
            forall|x: u64|
                used@.contains(x) <==> x != 0 && exists|j: int| 0 <= j < i && #[trigger] ids@[j] == x,
        decreases ids.len() - i,
    {
        broadcast use vstd::std_specs::hash::group_hash_axioms;

        let ghost used0 = used@;
        let id: u64 = ids[i];
        if id == 0 || !used.insert(id) {
            proof {
                assert(is_taken(ids@, i as int));
                taken_before_grows(ids@, i + 1, ids@.len() as int);
            }
            res.push(next);
            next += 1;
        } else {
            assert(!is_taken(ids@, i as int));
            res.push(id);
        }
        assert(forall|x: u64|
            used@.contains(x) <==> x != 0 && exists|j: int|
                0 <= j < i + 1 && #[trigger] ids@[j] == x) by {
            assert forall|x: u64| used@.contains(x) implies x != 0 && exists|j: int|
                0 <= j < i + 1 && #[trigger] ids@[j] == x by {
                if x == id && !used0.contains(x) {
                    assert(ids@[i as int] == x);
                } else {
                    let j = choose|j: int| 0 <= j < i && #[trigger] ids@[j] == x;
                    assert(ids@[j] == x);
                }
            }
        }
        i += 1;
    }
    assert(res@ == own_numbers(ids@));
    res
}

} // verus!
