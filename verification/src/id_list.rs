//! Ordered lists of window identifiers: searching, rotating, filtering and
//! keeping first occurrences.

use vstd::prelude::*;
use std::collections::{HashSet, VecDeque};

use crate::types::WindowId;

verus! {

/// Position of the first occurrence of `id`.
pub open spec fn find_id(ids: Seq<WindowId>, id: WindowId) -> Option<int>
    decreases ids.len(),
{
    if ids.len() == 0 {
        None
    } else {
        match find_id(ids.drop_last(), id) {
            Some(at) => Some(at),
            None => if ids.last() == id {
                Some(ids.len() - 1)
            } else {
                None
            },
        }
    }
}

/// What [`find_id`] finds: the first position that holds the identifier.
pub proof fn lemma_find_id(ids: Seq<WindowId>, id: WindowId)
    ensures
        match find_id(ids, id) {
            Some(at) => {
                &&& 0 <= at < ids.len()
                &&& ids[at] == id
                &&& forall|j: int| 0 <= j < at ==> ids[j] != id
            },
            None => !ids.contains(id),
        },
        ids.contains(id) <==> find_id(ids, id) is Some,
    decreases ids.len(),
{
    if ids.len() > 0 {
        let front = ids.drop_last();
        lemma_find_id(front, id);
        if let Some(at) = find_id(front, id) {
            assert(ids[at] == front[at]);
            assert forall|j: int| 0 <= j < at implies ids[j] != id by {
                assert(front[j] == ids[j]);
            }
        } else {
            assert forall|j: int| 0 <= j < front.len() implies ids[j] != id by {
                assert(front[j] == ids[j]);
                assert(front.contains(front[j]));
            }
            if ids.last() == id {
                assert(ids.contains(ids[ids.len() - 1]));
            }
        }
    }
}

/// A position that holds the identifier with none before it is the one found.
pub proof fn lemma_find_id_is(ids: Seq<WindowId>, id: WindowId, at: int)
    requires
        0 <= at < ids.len(),
        ids[at] == id,
        forall|j: int| 0 <= j < at ==> ids[j] != id,
    ensures
        find_id(ids, id) == Some(at),
{
    lemma_find_id(ids, id);
    assert(ids.contains(id));
}

/// Position of the first occurrence of `id`.
pub fn position_of(ids: &VecDeque<WindowId>, id: WindowId) -> (r: Option<usize>)
    ensures
        match r {
            Some(at) => find_id(ids@, id) == Some(at as int) && at < ids@.len() && ids@[at as int]
                == id,
            None => find_id(ids@, id) is None,
        },
{
    let mut i: usize = 0;
    while i < ids.len()
        invariant
            0 <= i <= ids@.len(),
            forall|j: int| 0 <= j < i ==> ids@[j] != id,
        decreases ids@.len() - i,
    {
        if ids[i] == id {
            proof {
                lemma_find_id_is(ids@, id, i as int);
            }
            return Some(i);
        }
        i = i + 1;
    }
    proof {
        lemma_find_id(ids@, id);
    }
    None
}

/// The list turned left by `by` places.
pub open spec fn rotated<A>(s: Seq<A>, by: int) -> Seq<A> {
    s.skip(by) + s.take(by)
}

/// Turn a list left by `by` places.
pub fn rotate_left(ids: &mut VecDeque<WindowId>, by: usize)
    requires
        by <= old(ids)@.len(),
    ensures
        final(ids)@ == rotated(old(ids)@, by as int),
{
    let ghost s = ids@;
    let mut i: usize = 0;
    assert(ids@ =~= rotated(s, 0));
    while i < by
        invariant
            0 <= i <= by <= s.len(),
            ids@ == rotated(s, i as int),
        decreases by - i,
    {
        if let Some(front) = ids.pop_front() {
            ids.push_back(front);
        }
        i = i + 1;
        assert(ids@ =~= rotated(s, i as int));
    }
}

/// Position `slot` on a ring of `n` members, wrapping in both directions.
pub fn wrap_index(slot: i64, n: usize) -> (r: usize)
    requires
        n > 0,
    ensures
        r == slot as int % n as int,
        r < n,
{
    let size: u64 = n as u64;
    if slot >= 0 {
        let r: u64 = slot as u64 % size;
        r as usize
    } else {
        let back: u64 = (-(slot + 1)) as u64;
        let r: u64 = size - 1 - back % size;
        proof {
            let m = n as int;
            let b = back as int;
            assert(slot as int == -b - 1);
            assert((-b - 1) % m == m - 1 - b % m) by (nonlinear_arith)
                requires
                    m > 0,
                    b >= 0,
            {
                let q = b / m;
                let rem = b % m;
                assert(b == q * m + rem);
                assert(-b - 1 == (-q - 1) * m + (m - 1 - rem)) by (nonlinear_arith)
                    requires
                        b == q * m + rem,
                ;
                vstd::arithmetic::div_mod::lemma_fundamental_div_mod_converse(
                    -b - 1,
                    m,
                    -q - 1,
                    m - 1 - rem,
                );
            }
        }
        r as usize
    }
}

/// The identifiers of `ids` in order, leaving out those in `seen` and every
/// occurrence after the first.
pub open spec fn fresh(seen: Set<WindowId>, ids: Seq<WindowId>) -> Seq<WindowId>
    decreases ids.len(),
{
    if ids.len() == 0 {
        Seq::empty()
    } else {
        let front = fresh(seen, ids.drop_last());
        if seen.contains(ids.last()) || front.contains(ids.last()) {
            front
        } else {
            front.push(ids.last())
        }
    }
}

/// What [`fresh`] keeps: each new identifier once.
pub proof fn lemma_fresh(seen: Set<WindowId>, ids: Seq<WindowId>)
    ensures
        fresh(seen, ids).no_duplicates(),
        fresh(seen, ids).len() <= ids.len(),
        forall|id: WindowId| #[trigger]
            fresh(seen, ids).contains(id) <==> ids.contains(id) && !seen.contains(id),
    decreases ids.len(),
{
    if ids.len() > 0 {
        let front = ids.drop_last();
        lemma_fresh(seen, front);
        let kept = fresh(seen, front);
        assert forall|id: WindowId| #[trigger]
            fresh(seen, ids).contains(id) <==> ids.contains(id) && !seen.contains(id) by {
            lemma_contains_last(ids, id);
            if !(seen.contains(ids.last()) || kept.contains(ids.last())) {
                assert(fresh(seen, ids) == kept.push(ids.last()));
                lemma_contains_last(kept.push(ids.last()), id);
                assert(kept.push(ids.last()).drop_last() =~= kept);
            }
        }
    }
}

/// A list without repeats and without anything seen is all fresh.
pub proof fn lemma_fresh_of_distinct(seen: Set<WindowId>, ids: Seq<WindowId>)
    requires
        ids.no_duplicates(),
        forall|id: WindowId| #[trigger] ids.contains(id) ==> !seen.contains(id),
    ensures
        fresh(seen, ids) == ids,
    decreases ids.len(),
{
    if ids.len() > 0 {
        let front = ids.drop_last();
        assert forall|id: WindowId| #[trigger] front.contains(id) implies !seen.contains(id) by {
            lemma_contains_last(ids, id);
        }
        lemma_fresh_of_distinct(seen, front);
        assert(ids.contains(ids[ids.len() - 1]));
        assert(!front.contains(ids.last())) by {
            if front.contains(ids.last()) {
                let i = choose|i: int| 0 <= i < front.len() && front[i] == ids.last();
                assert(ids[i] == ids[ids.len() - 1]);
            }
        }
        assert(ids =~= front.push(ids.last()));
    }
}

/// Membership in a list by its last entry.
pub proof fn lemma_contains_last(ids: Seq<WindowId>, id: WindowId)
    requires
        ids.len() > 0,
    ensures
        ids.contains(id) <==> ids.drop_last().contains(id) || ids.last() == id,
{
    let front = ids.drop_last();
    if ids.contains(id) {
        let i = choose|i: int| 0 <= i < ids.len() && ids[i] == id;
        if i < front.len() {
            assert(front[i] == id);
        }
    }
    if front.contains(id) {
        let i = choose|i: int| 0 <= i < front.len() && front[i] == id;
        assert(ids[i] == id);
    }
    if ids.last() == id {
        assert(ids[ids.len() - 1] == id);
    }
}

/// Two predicates that agree on a list filter it alike.
pub proof fn lemma_filter_same<A>(s: Seq<A>, p: spec_fn(A) -> bool, q: spec_fn(A) -> bool)
    requires
        forall|i: int| 0 <= i < s.len() ==> p(#[trigger] s[i]) == q(s[i]),
    ensures
        s.filter(p) == s.filter(q),
    decreases s.len(),
{
    reveal(Seq::filter);
    if s.len() > 0 {
        let front = s.drop_last();
        assert forall|i: int| 0 <= i < front.len() implies p(#[trigger] front[i]) == q(
            front[i],
        ) by {
            assert(front[i] == s[i]);
        }
        lemma_filter_same(front, p, q);
        assert(s[s.len() - 1] == s.last());
    }
}

/// What a filter keeps.
pub proof fn lemma_filter_members(ids: Seq<WindowId>, p: spec_fn(WindowId) -> bool)
    ensures
        forall|id: WindowId| #[trigger]
            ids.filter(p).contains(id) <==> ids.contains(id) && p(id),
        ids.no_duplicates() ==> ids.filter(p).no_duplicates(),
        ids.filter(p).len() <= ids.len(),
    decreases ids.len(),
{
    reveal(Seq::filter);
    if ids.len() > 0 {
        let front = ids.drop_last();
        let kept = front.filter(p);
        lemma_filter_members(front, p);
        assert forall|id: WindowId| #[trigger]
            ids.filter(p).contains(id) <==> ids.contains(id) && p(id) by {
            lemma_contains_last(ids, id);
            if p(ids.last()) {
                lemma_contains_last(kept.push(ids.last()), id);
                assert(kept.push(ids.last()).drop_last() =~= kept);
            }
        }
        if ids.no_duplicates() {
            assert(front.no_duplicates());
            assert(!front.contains(ids.last())) by {
                if front.contains(ids.last()) {
                    let i = choose|i: int| 0 <= i < front.len() && front[i] == ids.last();
                    assert(ids[i] == ids[ids.len() - 1]);
                }
            }
            assert(!kept.contains(ids.last()));
            if p(ids.last()) {
                let all = kept.push(ids.last());
                assert(ids.filter(p) == all);
                assert forall|i: int, j: int| 0 <= i < j < all.len() implies all[i] != all[j] by {
                    assert(all[i] == kept[i]);
                    assert(kept.contains(kept[i]));
                }
            }
        }
    }
}

/// A list filters front to back.
pub proof fn lemma_filter_push<A>(s: Seq<A>, x: A, p: spec_fn(A) -> bool)
    ensures
        s.push(x).filter(p) == if p(x) {
            s.filter(p).push(x)
        } else {
            s.filter(p)
        },
{
    reveal(Seq::filter);
    assert(s.push(x).drop_last() =~= s);
}

/// The identifiers of a list as a set.
pub fn set_of(ids: &[WindowId]) -> (r: HashSet<WindowId>)
    ensures
        r@ == ids@.to_set(),
{
    broadcast use vstd::std_specs::hash::group_hash_axioms;

    let mut set: HashSet<WindowId> = HashSet::new();
    let mut i: usize = 0;
    while i < ids.len()
        invariant
            0 <= i <= ids@.len(),
            set@ == ids@.take(i as int).to_set(),
        decreases ids@.len() - i,
    {
        broadcast use vstd::std_specs::hash::group_hash_axioms;

        set.insert(ids[i]);
        proof {
            let before = ids@.take(i as int);
            let after = ids@.take(i + 1);
            assert(after.drop_last() =~= before);
            assert forall|id: WindowId| #[trigger] set@.contains(id) == after.to_set().contains(
                id,
            ) by {
                lemma_contains_last(after, id);
            }
            assert(set@ =~= after.to_set());
        }
        i = i + 1;
    }
    assert(ids@.take(i as int) =~= ids@);
    set
}

/// Keep only the identifiers in `allowed`, in their order.
pub fn keep_allowed(ids: &mut VecDeque<WindowId>, allowed: &HashSet<WindowId>)
    ensures
        final(ids)@ == old(ids)@.filter(|id: WindowId| allowed@.contains(id)),
{
    let ghost s = ids@;
    let ghost p = |id: WindowId| allowed@.contains(id);
    let mut kept: VecDeque<WindowId> = VecDeque::new();
    let mut i: usize = 0;
    proof {
        reveal(Seq::filter);
        assert(kept@ =~= s.take(0).filter(p));
    }
    while i < ids.len()
        invariant
            0 <= i <= ids@.len(),
            ids@ == s,
            p == (|id: WindowId| allowed@.contains(id)),
            kept@ == s.take(i as int).filter(p),
        decreases ids@.len() - i,
    {
        broadcast use vstd::std_specs::hash::group_hash_axioms;

        let id: WindowId = ids[i];
        proof {
            assert(s.take(i + 1) =~= s.take(i as int).push(id));
            lemma_filter_push(s.take(i as int), id, p);
        }
        if allowed.contains(&id) {
            kept.push_back(id);
        }
        i = i + 1;
    }
    assert(s.take(i as int) =~= s);
    *ids = kept;
}

/// Drop every occurrence of `unwanted`.
pub fn drop_id(ids: &mut VecDeque<WindowId>, unwanted: WindowId)
    ensures
        final(ids)@ == old(ids)@.filter(|id: WindowId| id != unwanted),
{
    let ghost s = ids@;
    let ghost p = |id: WindowId| id != unwanted;
    let mut kept: VecDeque<WindowId> = VecDeque::new();
    let mut i: usize = 0;
    proof {
        reveal(Seq::filter);
        assert(kept@ =~= s.take(0).filter(p));
    }
    while i < ids.len()
        invariant
            0 <= i <= ids@.len(),
            ids@ == s,
            p == (|id: WindowId| id != unwanted),
            kept@ == s.take(i as int).filter(p),
        decreases ids@.len() - i,
    {
        let id: WindowId = ids[i];
        proof {
            assert(s.take(i + 1) =~= s.take(i as int).push(id));
            lemma_filter_push(s.take(i as int), id, p);
        }
        if id != unwanted {
            kept.push_back(id);
        }
        i = i + 1;
    }
    assert(s.take(i as int) =~= s);
    *ids = kept;
}

/// Keep the first occurrence of every identifier that is not `excluded`.
pub fn keep_first_occurrences(ids: &mut VecDeque<WindowId>, excluded: Option<WindowId>)
    ensures
        final(ids)@ == fresh(as_set(excluded), old(ids)@),
{
    broadcast use vstd::std_specs::hash::group_hash_axioms;

    let ghost s = ids@;
    let ghost seed = as_set(excluded);
    let mut seen: HashSet<WindowId> = HashSet::new();
    if let Some(id) = excluded {
        seen.insert(id);
    }
    let mut kept: VecDeque<WindowId> = VecDeque::new();
    let mut i: usize = 0;
    proof {
        assert(s.take(0) =~= Seq::<WindowId>::empty());
        assert(seen@ =~= seed + kept@.to_set());
    }
    while i < ids.len()
        invariant
            0 <= i <= ids@.len(),
            ids@ == s,
            seen@ == seed + kept@.to_set(),
            kept@ == fresh(seed, s.take(i as int)),
        decreases ids@.len() - i,
    {
        broadcast use vstd::std_specs::hash::group_hash_axioms;

        let id: WindowId = ids[i];
        let ghost before = kept@;
        proof {
            assert(s.take(i + 1).drop_last() =~= s.take(i as int));
        }
        if seen.insert(id) {
            kept.push_back(id);
            proof {
                assert forall|x: WindowId| #[trigger] seen@.contains(x) == (seed
                    + kept@.to_set()).contains(x) by {
                    lemma_contains_last(kept@, x);
                    assert(kept@.drop_last() =~= before);
                }
                assert(seen@ =~= seed + kept@.to_set());
            }
        } else {
            assert(seen@ =~= seed + kept@.to_set());
        }
        i = i + 1;
    }
    assert(s.take(i as int) =~= s);
    *ids = kept;
}

/// An optional identifier as a set.
pub open spec fn as_set(id: Option<WindowId>) -> Set<WindowId> {
    match id {
        Some(x) => set![x],
        None => Set::empty(),
    }
}

/// The members of a list.
pub fn ring_set(ids: &VecDeque<WindowId>) -> (r: HashSet<WindowId>)
    ensures
        r@ == ids@.to_set(),
{
    broadcast use vstd::std_specs::hash::group_hash_axioms;

    let mut set: HashSet<WindowId> = HashSet::new();
    let mut i: usize = 0;
    assert(set@ =~= ids@.take(0).to_set());
    while i < ids.len()
        invariant
            0 <= i <= ids@.len(),
            set@ == ids@.take(i as int).to_set(),
        decreases ids@.len() - i,
    {
        broadcast use vstd::std_specs::hash::group_hash_axioms;

        let id: WindowId = ids[i];
        set.insert(id);
        let ghost after = ids@.take(i + 1);
        assert(set@ =~= after.to_set()) by {
            assert forall|x: WindowId|
                after.contains(x) == (ids@.take(i as int).contains(x) || x == id) by {
                lemma_contains_last(after, x);
                assert(after.drop_last() =~= ids@.take(i as int));
            }
        }
        i = i + 1;
    }
    assert(ids@.take(i as int) =~= ids@);
    set
}

/// The members of a list that are not in a set, in list order.
pub fn ids_outside(ids: &VecDeque<WindowId>, excluded: &HashSet<WindowId>) -> (r: Vec<WindowId>)
    ensures
        r@ == ids@.filter(|id: WindowId| !excluded@.contains(id)),
{
    let ghost p = |id: WindowId| !excluded@.contains(id);
    let mut kept: Vec<WindowId> = Vec::new();
    let mut i: usize = 0;
    proof {
        reveal(Seq::filter);
        assert(ids@.take(0).filter(p) =~= Seq::empty());
    }
    while i < ids.len()
        invariant
            0 <= i <= ids@.len(),
            p == (|id: WindowId| !excluded@.contains(id)),
            kept@ == ids@.take(i as int).filter(p),
        decreases ids@.len() - i,
    {
        broadcast use vstd::std_specs::hash::group_hash_axioms;

        let id: WindowId = ids[i];
        proof {
            assert(ids@.take(i + 1) =~= ids@.take(i as int).push(id));
            lemma_filter_push(ids@.take(i as int), id, p);
        }
        if !excluded.contains(&id) {
            kept.push(id);
        }
        i = i + 1;
    }
    assert(ids@.take(i as int) =~= ids@);
    kept
}

/// Position of an identifier in a list.
pub fn position_in(ids: &Vec<WindowId>, id: WindowId) -> (r: Option<usize>)
    ensures
        match r {
            Some(at) => find_id(ids@, id) == Some(at as int) && at < ids@.len() && ids@[at as int]
                == id,
            None => find_id(ids@, id) is None,
        },
{
    let mut i: usize = 0;
    while i < ids.len()
        invariant
            0 <= i <= ids@.len(),
            forall|j: int| 0 <= j < i ==> ids@[j] != id,
        decreases ids@.len() - i,
    {
        if ids[i] == id {
            proof {
                lemma_find_id_is(ids@, id, i as int);
            }
            return Some(i);
        }
        i = i + 1;
    }
    proof {
        lemma_find_id(ids@, id);
    }
    None
}

} // verus!
