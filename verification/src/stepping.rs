//! Repeated application of an integration kernel.
//!
//! The kernel maps one sequence of bodies to the next over one fixed time
//! step. It is handed in as a function value; all that is known of it is its
//! own contract.

use vstd::prelude::*;

verus! {

/// Whether `count` applications of `kernel`, each to the result of the one
/// before and the first to `from`, can end in `to`.
pub open spec fn steps_lead<B, K: Fn(&Vec<B>) -> Vec<B>>(
    kernel: K,
    from: Vec<B>,
    count: nat,
    to: Vec<B>,
) -> bool
    decreases count,
{
    if count == 0 {
        to == from
    } else {
        exists|middle: Vec<B>|
            steps_lead(kernel, from, (count - 1) as nat, middle) && #[trigger] call_ensures(
                kernel,
                (&middle,),
                to,
            )
    }
}

/// Applies `kernel` to `bodies` `steps` times over.
pub fn advance_by<B, K: Fn(&Vec<B>) -> Vec<B>>(bodies: Vec<B>, steps: u64, kernel: &K) -> (advanced:
    Vec<B>)
    requires
        forall|input: &Vec<B>| call_requires(*kernel, (input,)),
    ensures
        steps_lead(*kernel, bodies, steps as nat, advanced),
{
    let mut current = bodies;
    let mut done: u64 = 0;
    while done < steps
        invariant
            done <= steps,
            steps_lead(*kernel, bodies, done as nat, current),
            forall|input: &Vec<B>| call_requires(*kernel, (input,)),
        decreases steps - done,
    {
        let next = kernel(&current);
        assert(call_ensures(*kernel, (&current,), next));
        current = next;
        done = done + 1;
    }
    current
}

} // verus!
