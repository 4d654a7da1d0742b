//! Sorting of plain rows of integers.

use vstd::prelude::*;
use vstd::relations::{sorted_by, total_ordering};

verus! {

/// A row that has a total order.
pub trait OrderedRow: Sized {
    /// Whether `a` comes no later than `b`.
    spec fn row_leq(a: Self, b: Self) -> bool;

    /// The order is total.
    proof fn row_order_is_total()
        ensures
            total_ordering(|a: Self, b: Self| Self::row_leq(a, b)),
    ;

    /// Whether `a` comes no later than `b`.
    fn row_not_after(a: &Self, b: &Self) -> (r: bool)
        ensures
            r == Self::row_leq(*a, *b),
    ;
}

impl OrderedRow for (i32, i32, i32, i32) {
    open spec fn row_leq(a: Self, b: Self) -> bool {
        if a.0 != b.0 {
            a.0 < b.0
        } else if a.1 != b.1 {
            a.1 < b.1
        } else if a.2 != b.2 {
            a.2 < b.2
        } else {
            a.3 <= b.3
        }
    }

    proof fn row_order_is_total() {
    }

    fn row_not_after(a: &Self, b: &Self) -> (r: bool) {
        if a.0 != b.0 {
            a.0 < b.0
        } else if a.1 != b.1 {
            a.1 < b.1
        } else if a.2 != b.2 {
            a.2 < b.2
        } else {
            a.3 <= b.3
        }
    }
}

impl OrderedRow for (u64, i32, i32, i32, i32, u32) {
    open spec fn row_leq(a: Self, b: Self) -> bool {
        if a.0 != b.0 {
            a.0 < b.0
        } else if a.1 != b.1 {
            a.1 < b.1
        } else if a.2 != b.2 {
            a.2 < b.2
        } else if a.3 != b.3 {
            a.3 < b.3
        } else if a.4 != b.4 {
            a.4 < b.4
        } else {
            a.5 <= b.5
        }
    }

    proof fn row_order_is_total() {
    }

    fn row_not_after(a: &Self, b: &Self) -> (r: bool) {
        if a.0 != b.0 {
            a.0 < b.0
        } else if a.1 != b.1 {
            a.1 < b.1
        } else if a.2 != b.2 {
            a.2 < b.2
        } else if a.3 != b.3 {
            a.3 < b.3
        } else if a.4 != b.4 {
            a.4 < b.4
        } else {
            a.5 <= b.5
        }
    }
}

/// The rows in ascending order.
pub open spec fn ascending<R: OrderedRow>(rows: Seq<R>) -> Seq<R> {
    rows.sort_by(|a: R, b: R| R::row_leq(a, b))
}

/// Two sequences with the same rows sort to the same sequence.
pub proof fn lemma_ascending_ignores_order<R: OrderedRow>(a: Seq<R>, b: Seq<R>)
    requires
        a.to_multiset() == b.to_multiset(),
    ensures
        ascending(a) == ascending(b),
{
    let leq = |x: R, y: R| R::row_leq(x, y);
    R::row_order_is_total();
    a.lemma_sort_by_ensures(leq);
    b.lemma_sort_by_ensures(leq);
    vstd::seq_lib::lemma_sorted_unique(ascending(a), ascending(b), leq);
}

/// Put `row` into its place in an ascending vector.
fn insert_row<R: OrderedRow>(sorted: &mut Vec<R>, row: R)
    requires
        sorted_by(old(sorted)@, |a: R, b: R| R::row_leq(a, b)),
    ensures
        sorted_by(final(sorted)@, |a: R, b: R| R::row_leq(a, b)),
        final(sorted)@.to_multiset() == old(sorted)@.to_multiset().insert(row),
{
    let ghost leq = |a: R, b: R| R::row_leq(a, b);
    proof {
        R::row_order_is_total();
    }
    let mut at: usize = 0;
    while at < sorted.len() && R::row_not_after(&sorted[at], &row)
        invariant
            0 <= at <= sorted@.len(),
            sorted@ == old(sorted)@,
            forall|j: int| 0 <= j < at ==> R::row_leq(#[trigger] sorted@[j], row),
        decreases sorted@.len() - at,
    {
        at = at + 1;
    }
    proof {
        assert(total_ordering(leq));
        assert forall|j: int| at <= j < sorted@.len() implies R::row_leq(
            row,
            #[trigger] sorted@[j],
        ) by {
            assert(leq(sorted@[at as int], row) || leq(row, sorted@[at as int]));
            if j > at {
                assert(leq(sorted@[at as int], sorted@[j]));
            }
            assert(leq(row, sorted@[at as int]));
            assert(leq(sorted@[at as int], sorted@[j]) || j == at);
            if j > at {
                assert(leq(row, sorted@[j]));
            }
        }
    }
    sorted.insert(at, row);
    proof {
        broadcast use vstd::seq_lib::group_to_multiset_ensures;

        assert(sorted@ =~= old(sorted)@.insert(at as int, row));
        assert forall|i: int, j: int| 0 <= i < j < sorted@.len() implies #[trigger] leq(
            sorted@[i],
            sorted@[j],
        ) by {
            let s = old(sorted)@;
            if i < at && j < at {
                assert(leq(s[i], s[j]));
            } else if i < at && j == at {
                assert(R::row_leq(s[i], row));
            } else if i < at {
                assert(leq(s[i], s[j - 1]));
            } else if i == at {
                assert(R::row_leq(row, s[j - 1]));
            } else {
                assert(leq(s[i - 1], s[j - 1]));
            }
        }
    }
}

/// Sort rows into ascending order.
pub fn sort_rows<R: OrderedRow>(rows: Vec<R>) -> (r: Vec<R>)
    ensures
        r@ == ascending(rows@),
{
    let ghost leq = |a: R, b: R| R::row_leq(a, b);
    let ghost all = rows@;
    let mut rest: Vec<R> = rows;
    let mut sorted: Vec<R> = Vec::new();
    proof {
        assert(all.skip(all.len() as int) =~= Seq::<R>::empty());
        assert(sorted@ =~= Seq::<R>::empty());
        assert(rest@ =~= all.take(all.len() as int));
    }
    while rest.len() > 0
        invariant
            rest@.len() <= all.len(),
            rest@ == all.take(rest@.len() as int),
            leq == (|a: R, b: R| R::row_leq(a, b)),
            sorted_by(sorted@, leq),
            sorted@.to_multiset() == all.skip(rest@.len() as int).to_multiset(),
        decreases rest@.len(),
    {
        let ghost n = rest@.len() as int;
        if let Some(row) = rest.pop() {
            proof {
                broadcast use vstd::seq_lib::group_to_multiset_ensures;

                assert(rest@ =~= all.take(n - 1));
                assert(all.skip(n - 1) =~= all.skip(n).insert(0, row));
            }
            insert_row(&mut sorted, row);
        }
    }
    proof {
        assert(all.skip(0) =~= all);
        R::row_order_is_total();
        all.lemma_sort_by_ensures(leq);
        vstd::seq_lib::lemma_sorted_unique(sorted@, ascending(all), leq);
    }
    sorted
}

} // verus!
