//! The one place where chance enters the game.

use vstd::prelude::*;
use rand::seq::IndexedRandom;

verus! {

/// Draws one of `cells` at random, each with the same chance.
///
/// Calls `rand::seq::IndexedRandom::choose` on the slice of `cells`, with the
/// generator of the current thread (`rand::rng`). Taken on trust from its
/// source: it yields nothing for an empty slice and else one element of the
/// slice. Which element comes is left open, and so is the even chance.
#[verifier::external_body]
pub(crate) fn pick_cell(cells: &Vec<(u16, u16)>) -> (pick: Option<(u16, u16)>)
    ensures
        pick is None <==> cells@.len() == 0,
        pick matches Some(c) ==> cells@.contains(c),
{
    cells.choose(&mut rand::rng()).copied()
}

} // verus!
