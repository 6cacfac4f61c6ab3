use vstd::prelude::*;

use std::collections::VecDeque;

use crate::direction::Direction;
use crate::map::{entry_wf, Grid, MapEntry, ParentInfo};
use crate::output::Moves;
use crate::position::{Dimensions, Position};
use crate::UNREACHED;

verus! {

/// The turn-scoped output of path reconstruction: the moves of the next
/// turn to execute, the cell those moves end on, and the mining action,
/// if any, to perform after them.
#[derive(Clone, Copy, Debug, PartialEq, Eq, Hash)]
pub struct Path {
    pub moves: Moves,
    pub end_position: Position,
    pub mine_direction: Option<Direction>,
}

/// The retained window and mining accumulator of a finished backward
/// walk, before it is packed into a [`Path`].
pub struct WalkResult {
    pub window: Seq<ParentInfo>,
    pub mine_direction: Option<Direction>,
}

/// More fuel than any backward walk over sound back-pointers can
/// consume: distances decrease strictly along a parent chain, and every
/// distance is at most `UNREACHED`.
pub open spec fn walk_fuel() -> nat {
    (UNREACHED + 1) as nat
}

/// The backward walk from `location` toward `from`, carrying the window
/// of at most `wheel_level` most-recent records (oldest at the back) and
/// the mining accumulator.
///
/// Before each record is prepended: if the current front record sits at
/// a turn boundary (`turn_move_index == 0`), every record accumulated so
/// far belongs to a later turn than the one being assembled, so the
/// window is cleared, and the mining accumulator is set to the front
/// record's direction if that record required mining, else cleared.
pub open spec fn walk(
    entries: Seq<MapEntry>,
    dimensions: Dimensions,
    from: Position,
    location: Position,
    window: Seq<ParentInfo>,
    mine_direction: Option<Direction>,
    wheel_level: int,
    fuel: nat,
) -> Option<WalkResult>
    decreases fuel,
{
    if location == from {
        Some(WalkResult { window, mine_direction })
    } else if fuel == 0 {
        None
    } else if !location.in_bounds(dimensions) {
        None
    } else {
        match entries[location.linear(dimensions.width)].parent {
            None => None,
            Some(p) => {
                let boundary = window.len() > 0 && window[0].turn_move_index == 0;
                let window1 = if boundary {
                    Seq::<ParentInfo>::empty()
                } else {
                    window
                };
                let mine1 = if boundary {
                    if window[0].requires_mining {
                        Some(window[0].direction)
                    } else {
                        None
                    }
                } else {
                    mine_direction
                };
                let record = ParentInfo {
                    direction: p.direction,
                    location,
                    requires_mining: p.requires_mining,
                    turn_move_index: p.turn_move_index,
                };
                let window2 = seq![record] + window1;
                let window3 = if window2.len() > wheel_level {
                    window2.take(wheel_level)
                } else {
                    window2
                };
                walk(
                    entries,
                    dimensions,
                    from,
                    p.location,
                    window3,
                    mine1,
                    wheel_level,
                    (fuel - 1) as nat,
                )
            },
        }
    }
}

/// What `find_path` returns, in full: `None` exactly when the backward
/// walk from `to` fails to reach `from`; otherwise the retained window
/// packed into three move slots, the oldest retained record's location
/// (or the goal itself when nothing was retained), and the mining
/// accumulator.
pub open spec fn spec_find_path(
    entries: Seq<MapEntry>,
    dimensions: Dimensions,
    from: Position,
    to: Position,
    wheel_level: int,
) -> Option<Path> {
    match walk(
        entries,
        dimensions,
        from,
        to,
        Seq::empty(),
        None,
        wheel_level,
        walk_fuel(),
    ) {
        None => None,
        Some(wr) => Some(
            Path {
                moves: Moves {
                    mvs: [
                        if wr.window.len() > 0 {
                            Some(wr.window[0].direction)
                        } else {
                            None
                        },
                        if wr.window.len() > 1 {
                            Some(wr.window[1].direction)
                        } else {
                            None
                        },
                        if wr.window.len() > 2 {
                            Some(wr.window[2].direction)
                        } else {
                            None
                        },
                    ],
                },
                end_position: if wr.window.len() > 0 {
                    wr.window[wr.window.len() - 1].location
                } else {
                    to
                },
                mine_direction: wr.mine_direction,
            },
        ),
    }
}

impl Grid {
    /// Walks the shortest-path tree backward from `to` until it reaches
    /// `from`, keeping a window of at most `wheel_level` most-recent
    /// records and clearing it at each turn boundary, so that what
    /// remains is the turn segment closest to the agent. Returns `None`
    /// when some cell on the way back lacks a parent before `from` is
    /// reached (the goal is unreachable given current knowledge).
    pub fn find_path(&self, from: Position, to: Position, wheel_level: usize) -> (r: Option<Path>)
        requires
            self.wf(),
            wheel_level >= 1,
        ensures
            r == spec_find_path(
                self.entries@,
                self.dimensions,
                from,
                to,
                wheel_level as int,
            ),
    {
        let ghost dims = self.dimensions;
        let ghost n = self.entries@.len();
        let width = self.dimensions.width;
        let mut location = to;
        let mut moves: VecDeque<ParentInfo> = VecDeque::new();
        let mut mine_direction: Option<Direction> = None;
        let ghost mut fuel: nat = walk_fuel();

        proof {
            if to.in_bounds(dims) {
                crate::position::lemma_linear_round_trip(to, dims);
                assert(entry_wf(self.entries@, dims, to.linear(dims.width)));
            }
        }
        while !(location.x == from.x && location.y == from.y)
            invariant
                self.wf(),
                wheel_level >= 1,
                dims == self.dimensions,
                width == self.dimensions.width,
                walk(
                    self.entries@,
                    dims,
                    from,
                    location,
                    moves@,
                    mine_direction,
                    wheel_level as int,
                    fuel,
                ) == walk(
                    self.entries@,
                    dims,
                    from,
                    to,
                    Seq::empty(),
                    None,
                    wheel_level as int,
                    walk_fuel(),
                ),
                moves@.len() <= wheel_level,
                location.in_bounds(dims) ==> fuel > self.entries@[location.linear(
                    dims.width,
                )].distance,
            decreases fuel,
        {
            proof {
                assert(location != from);
            }
            let entry = match self.entry_at(location) {
                Some(entry) => entry,
                None => {
                    return None;
                },
            };
            proof {
                crate::position::lemma_linear_round_trip(location, dims);
            }
            let parent = match entry.parent {
                Some(parent) => parent,
                None => {
                    return None;
                },
            };
            proof {
                assert(fuel > 0);
                assert(entry_wf(self.entries@, dims, location.linear(dims.width)));
            }
            let ghost old_location = location;
            let ghost old_window = moves@;
            let ghost old_mine = mine_direction;
            let ghost old_fuel = fuel;
            if moves.len() > 0 {
                let front = moves[0];
                if front.turn_move_index == 0 {
                    moves.clear();
                    mine_direction = if front.requires_mining {
                        Some(front.direction)
                    } else {
                        None
                    };
                }
            }
            let ghost window1 = moves@;
            let record = ParentInfo {
                direction: parent.direction,
                location,
                requires_mining: parent.requires_mining,
                turn_move_index: parent.turn_move_index,
            };
            moves.push_front(record);
            let ghost window2 = seq![record] + window1;
            location = parent.location;
            if moves.len() > wheel_level {
                let dropped = moves.pop_back();
                proof {
                    assert(window1.len() == wheel_level);
                    assert(moves@ =~= window2.take(wheel_level as int));
                }
            }
            proof {
                fuel = (fuel - 1) as nat;
                assert(walk(
                    self.entries@,
                    dims,
                    from,
                    old_location,
                    old_window,
                    old_mine,
                    wheel_level as int,
                    old_fuel,
                ) == walk(
                    self.entries@,
                    dims,
                    from,
                    location,
                    moves@,
                    mine_direction,
                    wheel_level as int,
                    fuel,
                ));
                crate::position::lemma_linear_round_trip(parent.location, dims);
                assert(entry_wf(self.entries@, dims, old_location.linear(dims.width)));
            }
        }

        let end_position = if moves.len() > 0 {
            moves[moves.len() - 1].location
        } else {
            to
        };
        let m0 = if moves.len() > 0 {
            Some(moves[0].direction)
        } else {
            None
        };
        let m1 = if moves.len() > 1 {
            Some(moves[1].direction)
        } else {
            None
        };
        let m2 = if moves.len() > 2 {
            Some(moves[2].direction)
        } else {
            None
        };
        let path = Path {
            moves: Moves { mvs: [m0, m1, m2] },
            end_position,
            mine_direction,
        };
        proof {
            assert(walk(
                self.entries@,
                dims,
                from,
                location,
                moves@,
                mine_direction,
                wheel_level as int,
                fuel,
            ) == Some(WalkResult { window: moves@, mine_direction }));
        }
        Some(path)
    }
}


/// Every record a walk retains points at an in-bounds cell, and a walk
/// that retains nothing never moved: it started on `from`.
pub proof fn lemma_walk_locations(
    entries: Seq<MapEntry>,
    dimensions: Dimensions,
    from: Position,
    location: Position,
    window: Seq<ParentInfo>,
    mine_direction: Option<Direction>,
    wheel_level: int,
    fuel: nat,
)
    requires
        wheel_level >= 1,
        forall|i: int| 0 <= i < window.len() ==> (#[trigger] window[i]).location.in_bounds(
            dimensions,
        ),
    ensures
        match walk(entries, dimensions, from, location, window, mine_direction, wheel_level, fuel) {
            Some(wr) => {
                &&& forall|i: int|
                    0 <= i < wr.window.len() ==> (#[trigger] wr.window[i]).location.in_bounds(
                        dimensions,
                    )
                &&& wr.window.len() == 0 ==> window.len() == 0 && location == from
            },
            None => true,
        },
    decreases fuel,
{
    if location == from {
    } else if fuel == 0 {
    } else if !location.in_bounds(dimensions) {
    } else {
        match entries[location.linear(dimensions.width)].parent {
            None => {},
            Some(p) => {
                let boundary = window.len() > 0 && window[0].turn_move_index == 0;
                let window1 = if boundary {
                    Seq::<ParentInfo>::empty()
                } else {
                    window
                };
                let mine1 = if boundary {
                    if window[0].requires_mining {
                        Some(window[0].direction)
                    } else {
                        None
                    }
                } else {
                    mine_direction
                };
                let record = ParentInfo {
                    direction: p.direction,
                    location,
                    requires_mining: p.requires_mining,
                    turn_move_index: p.turn_move_index,
                };
                let window2 = seq![record] + window1;
                let window3 = if window2.len() > wheel_level {
                    window2.take(wheel_level)
                } else {
                    window2
                };
                assert(window3.len() >= 1);
                assert forall|i: int|
                    0 <= i < window3.len() implies (#[trigger] window3[i]).location.in_bounds(
                        dimensions,
                    ) by {
                    if i == 0 {
                        assert(window3[i] == record);
                    } else {
                        assert(window3[i] == window1[i - 1]);
                    }
                }
                lemma_walk_locations(
                    entries,
                    dimensions,
                    from,
                    p.location,
                    window3,
                    mine1,
                    wheel_level,
                    (fuel - 1) as nat,
                );
            },
        }
    }
}

/// A reconstructed path never ends off the grid: its end position is an
/// in-bounds cell, or the starting cell itself when there was nothing to
/// walk.
pub proof fn lemma_path_end_position(
    entries: Seq<MapEntry>,
    dimensions: Dimensions,
    from: Position,
    to: Position,
    wheel_level: int,
)
    requires
        wheel_level >= 1,
    ensures
        match spec_find_path(entries, dimensions, from, to, wheel_level) {
            Some(p) => p.end_position.in_bounds(dimensions) || p.end_position == from,
            None => true,
        },
{
    lemma_walk_locations(
        entries,
        dimensions,
        from,
        to,
        Seq::empty(),
        None,
        wheel_level,
        walk_fuel(),
    );
}

} // verus!

