//! The escape-time evaluator: how many steps the orbit of a point under
//! `z -> z * z + c` takes to leave the stable region, if it does so before the
//! cap.
//!
//! The numbers are the caller's: `evaluate` is handed their product, their sum and
//! the test that a value is still stable, and decides which values to compute,
//! when to stop and what to answer.
use vstd::prelude::*;

verus! {

/// What the evaluation of one point found.
#[derive(Clone, Copy, Debug, PartialEq, Eq, Structural)]
pub enum EscapeResult {
    /// The orbit left the stable region after `iterations` steps. The escape
    /// value is `iterations / max_iterations`.
    Escaped { iterations: u64, max_iterations: u32 },
    /// The orbit was still stable when the cap was passed.
    Bounded,
}

impl EscapeResult {
    /// The number of steps that were taken to find this result under the cap
    /// `max_iterations`.
    pub open spec fn steps(self, max_iterations: int) -> int {
        match self {
            EscapeResult::Escaped { iterations, .. } => iterations as int,
            EscapeResult::Bounded => max_iterations + 1,
        }
    }
}

/// Whether `to` is a value that one step gives from `from`: a sum of a square
/// of `from` and `c`.
pub open spec fn is_step<Z, M: Fn(Z, Z) -> Z, A: Fn(Z, Z) -> Z>(
    from: Z,
    to: Z,
    c: Z,
    product: M,
    sum: A,
) -> bool {
    exists|square: Z|
        #[trigger] product.ensures((from, from), square) && sum.ensures((square, c), to)
}

/// Whether `orbit` is a run of the iteration from `seed` that stopped no
/// later than the cap asks: it starts at the seed, each value but the last was
/// found stable and led to the next by one step, and there are at most
/// `max_iterations + 1` steps.
pub open spec fn is_orbit<Z, M: Fn(Z, Z) -> Z, A: Fn(Z, Z) -> Z, S: Fn(&Z) -> bool>(
    orbit: Seq<Z>,
    c: Z,
    seed: Z,
    max_iterations: int,
    product: M,
    sum: A,
    is_stable: S,
) -> bool {
    &&& 1 <= orbit.len() <= max_iterations + 2
    &&& orbit[0] == seed
    &&& forall|i: int|
        0 <= i < orbit.len() - 1 ==> is_stable.ensures((&#[trigger] orbit[i],), true) && is_step(
            orbit[i],
            orbit[i + 1],
            c,
            product,
            sum,
        )
}

/// Whether `result` is the answer for an orbit that stopped at its last value:
/// escaped, with the number of steps taken, where that value was found
/// unstable; bounded where it was found stable with the cap passed.
pub open spec fn is_verdict<Z, S: Fn(&Z) -> bool>(
    result: EscapeResult,
    orbit: Seq<Z>,
    max_iterations: int,
    is_stable: S,
) -> bool {
    match result {
        EscapeResult::Escaped { iterations, max_iterations: cap } => {
            &&& cap == max_iterations
            &&& iterations == orbit.len() - 1
            &&& is_stable.ensures((&orbit.last(),), false)
        },
        EscapeResult::Bounded => {
            &&& orbit.len() == max_iterations + 2
            &&& is_stable.ensures((&orbit.last(),), true)
        },
    }
}

/// Iterates `z -> z * z + c` from `seed` while the value is stable and no more
/// than `max_iterations` steps were taken. Answers with the number of steps
/// where the orbit left the stable region, and with `Bounded` where the cap
/// was passed first. At most `max_iterations + 1` steps are taken.
pub fn evaluate<Z: Copy, M: Fn(Z, Z) -> Z, A: Fn(Z, Z) -> Z, S: Fn(&Z) -> bool>(
    c: Z,
    seed: Z,
    max_iterations: u32,
    product: &M,
    sum: &A,
    is_stable: &S,
) -> (result: EscapeResult)
    requires
        forall|a: Z, b: Z| product.requires((a, b)),
        forall|a: Z, b: Z| sum.requires((a, b)),
        forall|z: &Z| is_stable.requires((z,)),
    ensures
        exists|orbit: Seq<Z>|
            is_orbit(orbit, c, seed, max_iterations as int, *product, *sum, *is_stable)
                && is_verdict(result, orbit, max_iterations as int, *is_stable),
        result.steps(max_iterations as int) <= max_iterations + 1,
{
    let mut z = seed;
    let mut iterations: u64 = 0;
    let ghost mut orbit: Seq<Z> = seq![seed];
    loop
        invariant
            forall|a: Z, b: Z| product.requires((a, b)),
            forall|a: Z, b: Z| sum.requires((a, b)),
            forall|z: &Z| is_stable.requires((z,)),
            is_orbit(orbit, c, seed, max_iterations as int, *product, *sum, *is_stable),
            orbit.last() == z,
            iterations == orbit.len() - 1,
        decreases max_iterations + 1 - iterations,
    {
        let stable: bool = is_stable(&z);
        if !stable {
            let result = EscapeResult::Escaped { iterations, max_iterations };
            assert(is_verdict(result, orbit, max_iterations as int, *is_stable));
            return result;
        }
        if iterations > max_iterations as u64 {
            assert(is_verdict(EscapeResult::Bounded, orbit, max_iterations as int, *is_stable));
            return EscapeResult::Bounded;
        }
        let ghost before = orbit;
        let square = product(z, z);
        let next = sum(square, c);
        proof {
            orbit = before.push(next);
            assert(is_step(z, next, c, *product, *sum));
            assert forall|i: int| 0 <= i < orbit.len() - 1 implies is_stable.ensures(
                (&#[trigger] orbit[i],),
                true,
            ) && is_step(orbit[i], orbit[i + 1], c, *product, *sum) by {
                if i < before.len() - 1 {
                    assert(orbit[i] == before[i]);
                    assert(orbit[i + 1] == before[i + 1]);
                }
            }
        }
        z = next;
        iterations = iterations + 1;
    }
}

/// An orbit whose values are never found unstable is answered with `Bounded`.
pub proof fn lemma_stable_orbit_is_bounded<Z, S: Fn(&Z) -> bool>(
    result: EscapeResult,
    orbit: Seq<Z>,
    max_iterations: int,
    is_stable: S,
)
    requires
        is_verdict(result, orbit, max_iterations, is_stable),
        forall|z: &Z| !is_stable.ensures((z,), false),
    ensures
        result == EscapeResult::Bounded,
{
}

} // verus!
