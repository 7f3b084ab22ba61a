//! The shape of one integration step.
//!
//! A step gives every body its next value from one snapshot of all bodies:
//! no body sees the next value of another. What acts on a body is gathered
//! from every other body in index order. The arithmetic on masses, positions
//! and velocities is the caller's; it comes in as function values, and all
//! that is known of them is their own contracts.

use vstd::prelude::*;

verus! {

/// Whether combining a running value with `bodies[0]`, `bodies[1]`, ... up to
/// but not including `bodies[upto]`, leaving out `bodies[skip]` and starting
/// from `start`, can end in `total`.
pub open spec fn gathers<B, A, F: Fn(A, &B) -> A>(
    combine: F,
    bodies: Seq<B>,
    skip: int,
    upto: int,
    start: A,
    total: A,
) -> bool
    decreases upto,
{
    if upto <= 0 {
        total == start
    } else if upto - 1 == skip {
        gathers(combine, bodies, skip, upto - 1, start, total)
    } else {
        exists|partial: A|
            gathers(combine, bodies, skip, upto - 1, start, partial) && #[trigger] call_ensures(
                combine,
                (partial, &bodies[upto - 1]),
                total,
            )
    }
}

/// Gathers what every other body contributes to the body at `index`: starts
/// from `start` and combines it with each body but that one, in index order.
pub fn gather_from_others<B, A, F: Fn(A, &B) -> A>(
    bodies: &Vec<B>,
    index: usize,
    start: A,
    combine: &F,
) -> (total: A)
    requires
        forall|partial: A, body: &B| call_requires(*combine, (partial, body)),
    ensures
        gathers(*combine, bodies@, index as int, bodies.len() as int, start, total),
{
    let mut total = start;
    let mut other: usize = 0;
    while other < bodies.len()
        invariant
            other <= bodies.len(),
            gathers(*combine, bodies@, index as int, other as int, start, total),
            forall|partial: A, body: &B| call_requires(*combine, (partial, body)),
        decreases bodies.len() - other,
    {
        if other != index {
            let ghost partial = total;
            total = combine(total, &bodies[other]);
            assert(call_ensures(*combine, (partial, &bodies@[other as int]), total));
        }
        other = other + 1;
    }
    total
}

/// A body with no other body beside it gathers nothing: the result is the
/// value the gathering started from.
pub proof fn lemma_lone_body_gathers_nothing<B, A, F: Fn(A, &B) -> A>(
    combine: F,
    bodies: Seq<B>,
    start: A,
    total: A,
)
    requires
        bodies.len() == 1,
        gathers(combine, bodies, 0, 1, start, total),
    ensures
        total == start,
{
    assert(gathers(combine, bodies, 0, 0, start, total));
}

/// Advances all bodies by one step: the body at each index becomes what
/// `update` makes of that index and the bodies as they were handed in.
pub fn simulate<B, U: Fn(usize, &Vec<B>) -> B>(bodies: &Vec<B>, update: &U) -> (advanced: Vec<B>)
    requires
        forall|index: usize, snapshot: &Vec<B>|
            index < snapshot.len() ==> call_requires(*update, (index, snapshot)),
    ensures
        advanced.len() == bodies.len(),
        forall|index: int|
            0 <= index < bodies.len() ==> call_ensures(
                *update,
                (index as usize, bodies),
                #[trigger] advanced[index],
            ),
        bodies.len() == 0 ==> advanced@ == bodies@,
{
    let mut advanced: Vec<B> = Vec::new();
    let mut index: usize = 0;
    while index < bodies.len()
        invariant
            index <= bodies.len(),
            advanced.len() == index,
            forall|done: int|
                0 <= done < index ==> call_ensures(
                    *update,
                    (done as usize, bodies),
                    #[trigger] advanced[done],
                ),
            forall|index: usize, snapshot: &Vec<B>|
                index < snapshot.len() ==> call_requires(*update, (index, snapshot)),
        decreases bodies.len() - index,
    {
        let next = update(index, bodies);
        advanced.push(next);
        index = index + 1;
    }
    proof {
        if bodies.len() == 0 {
            assert(advanced@ =~= bodies@);
        }
    }
    advanced
}

} // verus!
