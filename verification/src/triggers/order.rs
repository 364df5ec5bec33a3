//! The order in which triggers go on the stack (CR 603.3b): the active player's first, and for
//! each player by timestamp; then turned round, so that what is placed last resolves first.

use crate::ids::PlayerId;
use vstd::prelude::*;

verus! {

/// Something that waits to be put on the stack.
pub trait Timed: Sized {
    spec fn owner(&self) -> PlayerId;

    spec fn stamp(&self) -> u32;

    fn waiting_for(&self) -> (r: PlayerId)
        ensures
            r == self.owner(),
    ;

    fn waiting_since(&self) -> (r: u32)
        ensures
            r == self.stamp(),
    ;
}

/// Whether one trigger comes before another: the active player's before the others', and among
/// those the earlier one.
pub open spec fn precedes<T: Timed>(active: PlayerId, a: T, b: T) -> bool {
    if a.owner() == active && b.owner() != active {
        true
    } else if a.owner() != active && b.owner() == active {
        false
    } else {
        a.stamp() < b.stamp()
    }
}

fn check_precedes<T: Timed>(active: PlayerId, a: &T, b: &T) -> (r: bool)
    ensures
        r == precedes(active, *a, *b),
{
    let a_active: bool = a.waiting_for() == active;
    let b_active: bool = b.waiting_for() == active;
    if a_active && !b_active {
        true
    } else if !a_active && b_active {
        false
    } else {
        a.waiting_since() < b.waiting_since()
    }
}

/// Where a trigger goes among others that are in order: behind all that it does not precede.
pub open spec fn place_for<T: Timed>(active: PlayerId, items: Seq<T>, x: T, from: nat) -> nat
    decreases items.len() - from,
{
    if from >= items.len() {
        items.len()
    } else if precedes(active, x, items[from as int]) {
        from
    } else {
        place_for(active, items, x, from + 1)
    }
}

/// The first `n` triggers in order; triggers of which neither precedes the other stay as they
/// came.
pub open spec fn in_order<T: Timed>(active: PlayerId, items: Seq<T>, n: nat) -> Seq<T>
    decreases n,
{
    if n == 0 {
        seq![]
    } else {
        let before = in_order(active, items, (n - 1) as nat);
        before.insert(
            place_for(active, before, items[n - 1], 0) as int,
            items[n - 1],
        )
    }
}

/// The order in which triggers are put on the stack.
#[verifier::opaque]
pub open spec fn stack_order<T: Timed>(active: PlayerId, items: Seq<T>) -> Seq<T> {
    in_order(active, items, items.len()).reverse()
}

proof fn lemma_place_for<T: Timed>(active: PlayerId, items: Seq<T>, x: T, from: nat)
    requires
        from <= items.len(),
    ensures
        from <= place_for(active, items, x, from) <= items.len(),
        forall|i: int|
            from <= i < place_for(active, items, x, from) ==> !precedes(
                active,
                x,
                #[trigger] items[i],
            ),
        place_for(active, items, x, from) < items.len() ==> precedes(
            active,
            x,
            items[place_for(active, items, x, from) as int],
        ),
    decreases items.len() - from,
{
    if from < items.len() && !precedes(active, x, items[from as int]) {
        lemma_place_for(active, items, x, from + 1);
    }
}

/// Nothing in order is preceded by what comes after it.
pub proof fn law_in_order<T: Timed>(active: PlayerId, items: Seq<T>, n: nat)
    requires
        n <= items.len(),
    ensures
        in_order(active, items, n).len() == n,
        forall|i: int, j: int|
            0 <= i < j < n ==> !precedes(
                active,
                #[trigger] in_order(active, items, n)[j],
                #[trigger] in_order(active, items, n)[i],
            ),
    decreases n,
{
    if n > 0 {
        law_in_order(active, items, (n - 1) as nat);
        let before = in_order(active, items, (n - 1) as nat);
        let x = items[n - 1];
        let at = place_for(active, before, x, 0);
        lemma_place_for(active, before, x, 0);
        let after = before.insert(at as int, x);
        assert forall|i: int, j: int| 0 <= i < j < n implies !precedes(
            active,
            #[trigger] after[j],
            #[trigger] after[i],
        ) by {
            let old_i = if i < at { i } else { i - 1 };
            let old_j = if j < at { j } else { j - 1 };
            if i != at && j != at {
                assert(!precedes(active, before[old_j], before[old_i]));
            } else if i == at {
                assert(after[j] == before[j - 1]);
                assert(precedes(active, x, before[at as int]));
                if j - 1 > at {
                    assert(!precedes(active, before[j - 1], before[at as int]));
                }
            } else {
                assert(after[i] == before[i]);
            }
        }
    }
}

/// Putting triggers in order neither loses nor adds one.
pub proof fn law_order_keeps<T: Timed>(active: PlayerId, items: Seq<T>, n: nat)
    requires
        n <= items.len(),
    ensures
        in_order(active, items, n).to_multiset() == items.take(n as int).to_multiset(),
    decreases n,
{
    broadcast use vstd::seq_lib::group_to_multiset_ensures;

    if n > 0 {
        law_order_keeps(active, items, (n - 1) as nat);
        let before = in_order(active, items, (n - 1) as nat);
        let x = items[n - 1];
        lemma_place_for(active, before, x, 0);
        law_in_order(active, items, (n - 1) as nat);
        vstd::seq_lib::to_multiset_insert(before, place_for(active, before, x, 0) as int, x);
        assert(items.take(n as int) =~= items.take(n - 1).push(x));
        vstd::seq_lib::to_multiset_build(items.take(n - 1), x);
    } else {
        assert(in_order(active, items, n) =~= items.take(0));
    }
}

/// What goes on the stack is what was to go there, and of two triggers the one that precedes the
/// other is placed later, so that it resolves first.
pub proof fn law_stack_order<T: Timed>(active: PlayerId, items: Seq<T>)
    ensures
        stack_order(active, items).len() == items.len(),
        stack_order(active, items).to_multiset() == items.to_multiset(),
        forall|i: int, j: int|
            0 <= i < j < items.len() ==> !precedes(
                active,
                #[trigger] stack_order(active, items)[i],
                #[trigger] stack_order(active, items)[j],
            ),
{
    reveal(stack_order);
    law_in_order(active, items, items.len());
    law_order_keeps(active, items, items.len());
    assert(items.take(items.len() as int) =~= items);
    in_order(active, items, items.len()).lemma_reverse_to_multiset();
}

fn find_place<T: Timed>(active: PlayerId, items: &Vec<T>, x: &T) -> (r: usize)
    ensures
        r == place_for(active, items@, *x, 0),
        r <= items@.len(),
{
    let mut at: usize = 0;
    while at < items.len()
        invariant
            at <= items@.len(),
            place_for(active, items@, *x, 0) == place_for(active, items@, *x, at as nat),
        decreases items@.len() - at,
    {
        if check_precedes(active, x, &items[at]) {
            return at;
        }
        at = at + 1;
    }
    at
}

/// Puts triggers in the order in which they go on the stack.
pub fn order_for_stack<T: Timed>(active: PlayerId, items: Vec<T>) -> (r: Vec<T>)
    ensures
        r@ == stack_order(active, items@),
{
    let ghost all = items@;
    let mut rest = items;
    let mut sorted: Vec<T> = Vec::new();
    let mut n: usize = 0;
    let total: usize = rest.len();
    while n < total
        invariant
            n <= total,
            total == all.len(),
            rest@ == all.skip(n as int),
            sorted@ == in_order(active, all, n as nat),
            sorted@.len() == n,
        decreases total - n,
    {
        let x = rest.remove(0);
        assert(x == all[n as int]);
        assert(rest@ =~= all.skip(n + 1));
        let at: usize = find_place(active, &sorted, &x);
        sorted.insert(at, x);
        n = n + 1;
    }
    let mut out: Vec<T> = Vec::new();
    let ghost ordered = sorted@;
    while sorted.len() > 0
        invariant
            sorted@.len() <= ordered.len(),
            sorted@ == ordered.take(sorted@.len() as int),
            out@ == ordered.reverse().take(ordered.len() - sorted@.len()),
        decreases sorted@.len(),
    {
        let ghost k = sorted@.len();
        let x = sorted.pop().unwrap();
        assert(x == ordered[k - 1]);
        assert(sorted@ =~= ordered.take(k - 1));
        out.push(x);
        assert(out@ =~= ordered.reverse().take(ordered.len() - (k - 1)));
    }
    proof {
        reveal(stack_order);
        assert(out@ =~= ordered.reverse());
    }
    out
}

} // verus!
