//! The dispatch policy: a new task goes to the channel that holds the least,
//! the first of them where several hold as little.

use vstd::prelude::*;

verus! {

/// The first position among the first `upto` of `lengths` that holds their
/// smallest value.
pub open spec fn first_shortest_among(lengths: Seq<nat>, upto: int) -> int
    decreases upto,
{
    if upto <= 1 {
        0
    } else {
        let best = first_shortest_among(lengths, upto - 1);
        if lengths[upto - 1] < lengths[best] {
            upto - 1
        } else {
            best
        }
    }
}

/// The first position of `lengths` that holds its smallest value.
pub open spec fn first_shortest(lengths: Seq<nat>) -> int {
    first_shortest_among(lengths, lengths.len() as int)
}

/// The occupancies as numbers without a machine bound.
pub open spec fn unbounded(lengths: Seq<usize>) -> Seq<nat> {
    lengths.map_values(|length: usize| length as nat)
}

/// The occupancies after one task was offered to the first shortest channel,
/// each channel having room for `capacity`: that channel holds one more,
/// unless it was full already.
pub open spec fn submitted(lengths: Seq<nat>, capacity: nat) -> Seq<nat> {
    let choice = first_shortest(lengths);
    if lengths.len() == 0 || lengths[choice] >= capacity {
        lengths
    } else {
        lengths.update(choice, lengths[choice] + 1)
    }
}

/// The occupancies after `count` tasks were offered one after another, with
/// nothing taken off in between.
pub open spec fn submitted_many(lengths: Seq<nat>, capacity: nat, count: nat) -> Seq<nat>
    decreases count,
{
    if count == 0 {
        lengths
    } else {
        submitted(submitted_many(lengths, capacity, (count - 1) as nat), capacity)
    }
}

proof fn lemma_first_shortest_among(lengths: Seq<nat>, upto: int)
    requires
        1 <= upto <= lengths.len(),
    ensures
        0 <= first_shortest_among(lengths, upto) < upto,
        forall|i: int|
            0 <= i < upto ==> lengths[first_shortest_among(lengths, upto)] <= #[trigger] lengths[i],
        forall|i: int|
            0 <= i < first_shortest_among(lengths, upto) ==> #[trigger] lengths[i]
                > lengths[first_shortest_among(lengths, upto)],
    decreases upto,
{
    if upto > 1 {
        lemma_first_shortest_among(lengths, upto - 1);
    }
}

/// The dispatch policy picks a channel of the pool; no channel holds less
/// than the one picked, and every channel before it holds more.
pub proof fn lemma_first_shortest(lengths: Seq<nat>)
    requires
        lengths.len() > 0,
    ensures
        0 <= first_shortest(lengths) < lengths.len(),
        forall|i: int|
            0 <= i < lengths.len() ==> lengths[first_shortest(lengths)] <= #[trigger] lengths[i],
        forall|i: int|
            0 <= i < first_shortest(lengths) ==> #[trigger] lengths[i] > lengths[first_shortest(
                lengths,
            )],
{
    lemma_first_shortest_among(lengths, lengths.len() as int);
}

/// Only one position is both nowhere undercut and preceded by longer ones.
pub proof fn lemma_first_shortest_unique(lengths: Seq<nat>, at: int)
    requires
        0 <= at < lengths.len(),
        forall|i: int| 0 <= i < lengths.len() ==> lengths[at] <= #[trigger] lengths[i],
        forall|i: int| 0 <= i < at ==> #[trigger] lengths[i] > lengths[at],
    ensures
        first_shortest(lengths) == at,
{
    lemma_first_shortest(lengths);
}

/// The occupancies of `workers` channels that hold nothing.
pub open spec fn idle(workers: nat) -> Seq<nat> {
    Seq::new(workers, |at: int| 0nat)
}

/// What channel `at` of `workers` channels holds when `count` tasks are
/// dealt out in turn, starting at the first channel.
pub open spec fn dealt_in_turn(workers: nat, count: nat, at: int) -> nat {
    if at < count % workers {
        count / workers + 1
    } else {
        count / workers
    }
}

/// The number of tasks that `workers` channels of room `capacity` take out
/// of `count` offered.
pub open spec fn accepted(workers: nat, capacity: nat, count: nat) -> nat {
    if count <= workers * capacity {
        count
    } else {
        workers * capacity
    }
}

proof fn lemma_quotient_and_rest(count: nat, workers: nat)
    requires
        workers > 0,
    ensures
        count == (count / workers) * workers + count % workers,
        0 <= count % workers < workers,
        0 <= count / workers,
{
    vstd::arithmetic::div_mod::lemma_fundamental_div_mod(count as int, workers as int);
    vstd::arithmetic::div_mod::lemma_mod_pos_bound(count as int, workers as int);
    vstd::arithmetic::div_mod::lemma_div_pos_is_pos(count as int, workers as int);
    assert((count / workers) * workers == workers * (count / workers)) by (nonlinear_arith);
}

/// Starting from idle channels, the dispatch policy deals the tasks out in
/// turn: after `count` submissions with nothing taken off in between, the
/// channels hold what dealing the accepted tasks round after round gives
/// them.
pub proof fn lemma_dispatch_in_turn(workers: nat, capacity: nat, count: nat)
    requires
        workers > 0,
    ensures
        submitted_many(idle(workers), capacity, count) == Seq::new(
            workers,
            |at: int| dealt_in_turn(workers, accepted(workers, capacity, count), at),
        ),
    decreases count,
{
    let target = Seq::new(
        workers,
        |at: int| dealt_in_turn(workers, accepted(workers, capacity, count), at),
    );
    if count == 0 {
        lemma_quotient_and_rest(0, workers);
        assert(0nat / workers == 0) by {
            vstd::arithmetic::div_mod::lemma_basic_div(0, workers as int);
        }
        assert(idle(workers) =~= target);
    } else {
        let before = (count - 1) as nat;
        lemma_dispatch_in_turn(workers, capacity, before);
        let held = submitted_many(idle(workers), capacity, before);
        let taken = accepted(workers, capacity, before);
        lemma_quotient_and_rest(taken, workers);
        let rounds: int = (taken / workers) as int;
        let rest: int = (taken % workers) as int;
        lemma_first_shortest(held);
        if before < workers * capacity {
            assert(taken == before);
            assert(accepted(workers, capacity, count) == count);
            assert forall|i: int| 0 <= i < held.len() implies held[rest] <= #[trigger] held[i] by {}
            assert forall|i: int| 0 <= i < rest implies #[trigger] held[i] > held[rest] by {}
            lemma_first_shortest_unique(held, rest);
            assert(rounds < capacity) by (nonlinear_arith)
                requires
                    rounds * workers + rest < workers * capacity,
                    0 <= rest,
                    0 < workers,
            ;
            if rest + 1 < workers {
                vstd::arithmetic::div_mod::lemma_fundamental_div_mod_converse(
                    count as int,
                    workers as int,
                    rounds,
                    rest + 1,
                );
            } else {
                assert(count == (rounds + 1) * workers + 0) by (nonlinear_arith)
                    requires
                        count == rounds * workers + rest + 1,
                        rest + 1 == workers,
                ;
                vstd::arithmetic::div_mod::lemma_fundamental_div_mod_converse(
                    count as int,
                    workers as int,
                    rounds + 1,
                    0,
                );
            }
            assert(submitted(held, capacity) =~= target);
        } else {
            assert(taken == workers * capacity);
            assert(accepted(workers, capacity, count) == workers * capacity);
            assert(workers * capacity == capacity * workers + 0) by (nonlinear_arith);
            vstd::arithmetic::div_mod::lemma_fundamental_div_mod_converse(
                taken as int,
                workers as int,
                capacity as int,
                0,
            );
            assert(submitted(held, capacity) =~= target);
        }
    }
}

/// Dispatch balance: when `count` tasks are submitted to `workers` idle
/// channels and nothing is taken off in between, no channel ever holds more
/// than `count / workers`, rounded up.
pub proof fn lemma_dispatch_balance(workers: nat, capacity: nat, count: nat, at: int)
    requires
        workers > 0,
        0 <= at < workers,
    ensures
        submitted_many(idle(workers), capacity, count).len() == workers,
        submitted_many(idle(workers), capacity, count)[at] <= (count + workers - 1) / (
        workers as int),
{
    lemma_dispatch_in_turn(workers, capacity, count);
    let taken = accepted(workers, capacity, count);
    lemma_quotient_and_rest(taken, workers);
    let rounds: int = (taken / workers) as int;
    let rest: int = (taken % workers) as int;
    if rest == 0 {
        vstd::arithmetic::div_mod::lemma_div_is_ordered(
            taken as int,
            count + workers - 1,
            workers as int,
        );
    } else {
        assert(taken + workers - 1 == (rounds + 1) * workers + (rest - 1)) by (nonlinear_arith)
            requires
                taken == rounds * workers + rest,
        ;
        vstd::arithmetic::div_mod::lemma_fundamental_div_mod_converse(
            taken + workers - 1,
            workers as int,
            rounds + 1,
            rest - 1,
        );
        vstd::arithmetic::div_mod::lemma_div_is_ordered(
            taken + workers - 1,
            count + workers - 1,
            workers as int,
        );
    }
}

/// Picks the channel for a new task from the occupancies of all channels:
/// the first of those that hold the least. Without channels there is none to
/// pick.
pub fn shortest(lengths: &Vec<usize>) -> (choice: Option<usize>)
    ensures
        lengths@.len() == 0 ==> choice.is_none(),
        lengths@.len() > 0 ==> (choice matches Some(at) && at == first_shortest(
            unbounded(lengths@),
        )),
{
    if lengths.len() == 0 {
        return None;
    }
    let mut best: usize = 0;
    let mut next: usize = 1;
    while next < lengths.len()
        invariant
            1 <= next <= lengths@.len(),
            0 <= best < next,
            best == first_shortest_among(unbounded(lengths@), next as int),
        decreases lengths@.len() - next,
    {
        if lengths[next] < lengths[best] {
            best = next;
        }
        next = next + 1;
    }
    Some(best)
}

} // verus!
