use vstd::prelude::*;

use crate::direction::Direction;
use crate::output::Moves;

verus! {

/// Relies on `rand::thread_rng` and `rand::Rng::gen_range`: sampling the
/// non-empty range `1..=4` returns a value inside it (`gen_range` panics
/// only on an empty range; `thread_rng` itself can abort only if the
/// operating system's entropy source fails at first use). Nothing more
/// is assumed of the sample: it is random, so no two calls need to
/// agree.
#[verifier::external_body]
fn random_roll() -> (r: u8)
    ensures
        1 <= r <= 4,
{
    rand::Rng::gen_range(&mut rand::thread_rng(), 1..=4)
}

/// The direction a roll of `1..=4` stands for, in trigonometric order.
pub fn direction_from_roll(roll: u8) -> (r: Direction)
    requires
        1 <= roll <= 4,
    ensures
        r == (if roll == 1 {
            Direction::Right
        } else if roll == 2 {
            Direction::Up
        } else if roll == 3 {
            Direction::Left
        } else {
            Direction::Down
        }),
{
    if roll == 1 {
        Direction::Right
    } else if roll == 2 {
        Direction::Up
    } else if roll == 3 {
        Direction::Left
    } else {
        Direction::Down
    }
}

/// A fallback turn command for when no plan exists: exactly one move, in
/// a uniformly random direction, and nothing else.
pub fn random_move() -> (r: Moves)
    ensures
        r.mvs@[0] is Some,
        r.mvs@[1] is None,
        r.mvs@[2] is None,
{
    let roll = random_roll();
    let direction = direction_from_roll(roll);
    Moves { mvs: [Some(direction), None, None] }
}

} // verus!
