use vstd::prelude::*;

use crate::direction::Direction;

verus! {

/// The movement slots of one turn command: the wire protocol carries at
/// most three moves, in execution order, with trailing empty slots.
#[derive(Clone, Copy, Debug, PartialEq, Eq, Hash)]
pub struct Moves {
    pub mvs: [Option<Direction>; 3],
}

impl Moves {
    pub fn new(mvs: [Option<Direction>; 3]) -> (r: Moves)
        ensures
            r.mvs@ == mvs@,
    {
        Moves { mvs }
    }

    /// How many slots actually hold a move.
    pub open spec fn count(self) -> int {
        (if self.mvs@[0] is Some {
            1int
        } else {
            0int
        }) + (if self.mvs@[1] is Some {
            1int
        } else {
            0int
        }) + (if self.mvs@[2] is Some {
            1int
        } else {
            0int
        })
    }
}

/// The action slot of one turn command: every action aims in a
/// direction.
#[derive(Clone, Copy, Debug, PartialEq, Eq, Hash, Structural)]
pub enum Action {
    Attack { direction: Direction },
    Scan { direction: Direction },
    Mine { direction: Direction },
    Place { direction: Direction },
}

/// One whole turn command: optional moves, an optional action and an
/// optional upgrade request.
#[derive(Clone, Copy, Debug, PartialEq, Eq, Hash)]
pub struct Output {
    pub moves: Option<Moves>,
    pub action: Option<Action>,
    pub upgrade: Option<crate::player::Upgrade>,
}

} // verus!
