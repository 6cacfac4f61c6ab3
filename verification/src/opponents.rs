use vstd::prelude::*;

use crate::position::Position;
use crate::tile::Tile;

verus! {

/// What is tracked of an opponent's build: only the stats the heuristics
/// read.
#[derive(Clone, Copy, Debug, PartialEq, Eq, Hash, Structural)]
pub struct Stats {
    pub rifle_level: u8,
    pub wheel_level: u8,
}

impl Default for Stats {
    /// A freshly sighted opponent is assumed unupgraded.
    fn default() -> (r: Self)
        ensures
            r == (Stats { rifle_level: 1, wheel_level: 1 }),
    {
        Stats { rifle_level: 1, wheel_level: 1 }
    }
}

/// One tracked opponent: its last sighted position, inferred stats, and
/// whether the latest snapshot confirmed it.
#[derive(Clone, Copy, Debug, PartialEq, Eq, Hash, Structural)]
pub struct Opponent {
    pub id: u8,
    pub position: Position,
    pub stats: Stats,
    pub up_to_date: bool,
}

/// How a re-sighted opponent's record changes: the position moves to the
/// new sighting, and its wheel level is re-estimated as the taxicab
/// distance it covered since the last snapshot — or reset to 1 when the
/// previous record was stale, so no speed can be inferred. The estimate
/// is stored as a byte and wraps on the rare distance that does not
/// fit one.
pub open spec fn updated_opponent(o: Opponent, position: Position) -> Opponent {
    Opponent {
        id: o.id,
        position,
        stats: Stats {
            rifle_level: o.stats.rifle_level,
            wheel_level: if o.up_to_date {
                (vstd::math::abs(o.position.x - position.x) + vstd::math::abs(
                    o.position.y - position.y,
                )) as u8
            } else {
                1
            },
        },
        up_to_date: true,
    }
}

impl Opponent {
    /// A record for an opponent sighted for the first time.
    pub fn init_with_position(id: u8, position: Position) -> (r: Opponent)
        ensures
            r == (Opponent {
                id,
                position,
                stats: Stats { rifle_level: 1, wheel_level: 1 },
                up_to_date: true,
            }),
    {
        Opponent { id, position, stats: Stats { rifle_level: 1, wheel_level: 1 }, up_to_date: true }
    }

    /// Marks the record as not confirmed by the latest snapshot.
    pub fn outdate(&mut self)
        ensures
            *final(self) == (Opponent { up_to_date: false, ..*old(self) }),
    {
        self.up_to_date = false;
    }

    /// Folds a new sighting into the record, re-estimating the wheel
    /// level from the distance covered since the last confirmed one.
    pub fn update(&mut self, position: Position)
        requires
            0 <= old(self).position.x,
            0 <= old(self).position.y,
            0 <= position.x,
            0 <= position.y,
        ensures
            *final(self) == updated_opponent(*old(self), position),
    {
        let wheel_level: u8 = if self.up_to_date {
            let distance = self.position.manhattan_distance(&position);
            #[verifier::truncate] (distance as u8)
        } else {
            1
        };
        *self = Opponent {
            id: self.id,
            position,
            stats: Stats { rifle_level: self.stats.rifle_level, wheel_level },
            up_to_date: true,
        };
    }
}

/// The first index holding the given opponent id, or `-1` if the id is
/// not tracked yet.
pub open spec fn find_opponent(s: Seq<Opponent>, id: u8, i: int) -> int
    decreases s.len() - i,
{
    if i < 0 || i >= s.len() {
        -1
    } else if s[i].id == id {
        i
    } else {
        find_opponent(s, id, i + 1)
    }
}

/// A sighting folded into the roster: the existing record with that id
/// is updated, or a fresh record is appended for a new id.
pub open spec fn upserted(s: Seq<Opponent>, id: u8, position: Position) -> Seq<Opponent> {
    let at = find_opponent(s, id, 0);
    if at >= 0 {
        s.update(at, updated_opponent(s[at], position))
    } else {
        s.push(
            Opponent {
                id,
                position,
                stats: Stats { rifle_level: 1, wheel_level: 1 },
                up_to_date: true,
            },
        )
    }
}

/// The roster after scanning the first `n` cells of a snapshot: every
/// player tile sighted is folded in, in row-major order.
pub open spec fn opponents_after(
    s: Seq<Opponent>,
    tiles: Seq<Tile>,
    stride: usize,
    n: int,
) -> Seq<Opponent>
    decreases n,
{
    if n <= 0 {
        s
    } else {
        let prev = opponents_after(s, tiles, stride, n - 1);
        match tiles[n - 1] {
            Tile::Player { id } => upserted(
                prev,
                id,
                Position {
                    x: ((n - 1) % (stride as int)) as isize,
                    y: ((n - 1) / (stride as int)) as isize,
                },
            ),
            _ => prev,
        }
    }
}

/// Every tracked position has non-negative coordinates, as every
/// position read off a grid does; needed so speed estimation is always
/// well-defined.
pub open spec fn roster_wf(s: Seq<Opponent>) -> bool {
    forall|i: int|
        0 <= i < s.len() ==> 0 <= (#[trigger] s[i]).position.x && 0 <= s[i].position.y
}

/// The roster of every opponent sighted so far this game.
#[derive(Clone, Debug, PartialEq, Eq, Default)]
pub struct Opponents {
    pub opponents: Vec<Opponent>,
}

impl Opponents {
    /// An empty roster.
    pub fn new() -> (r: Opponents)
        ensures
            r.opponents@ == Seq::<Opponent>::empty(),
            roster_wf(r.opponents@),
    {
        Opponents { opponents: Vec::new() }
    }

    /// Marks every record as not confirmed by the latest snapshot.
    pub fn outdate_opponents(&mut self)
        ensures
            final(self).opponents@.len() == old(self).opponents@.len(),
            forall|i: int|
                0 <= i < old(self).opponents@.len() ==> final(self).opponents@[i] == (Opponent {
                    up_to_date: false,
                    ..old(self).opponents@[i]
                }),
            roster_wf(old(self).opponents@) ==> roster_wf(final(self).opponents@),
    {
        let n = self.opponents.len();
        let mut i: usize = 0;
        while i < n
            invariant
                i <= n,
                n == self.opponents@.len(),
                forall|j: int|
                    0 <= j < i ==> self.opponents@[j] == (Opponent {
                        up_to_date: false,
                        ..old(self).opponents@[j]
                    }),
                forall|j: int| i <= j < n ==> self.opponents@[j] == old(self).opponents@[j],
            decreases n - i,
        {
            self.opponents[i].up_to_date = false;
            i = i + 1;
        }
    }

    /// Folds one sighting into the roster.
    fn upsert(&mut self, id: u8, position: Position)
        requires
            roster_wf(old(self).opponents@),
            0 <= position.x,
            0 <= position.y,
        ensures
            final(self).opponents@ == upserted(old(self).opponents@, id, position),
            roster_wf(final(self).opponents@),
    {
        let n = self.opponents.len();
        let mut i: usize = 0;
        while i < n
            invariant
                i <= n,
                n == self.opponents@.len(),
                self.opponents@ == old(self).opponents@,
                roster_wf(old(self).opponents@),
                0 <= position.x,
                0 <= position.y,
                find_opponent(self.opponents@, id, 0) == find_opponent(
                    self.opponents@,
                    id,
                    i as int,
                ),
            decreases n - i,
        {
            if self.opponents[i].id == id {
                proof {
                    assert(roster_wf(old(self).opponents@));
                    assert(0 <= old(self).opponents@[i as int].position.x);
                }
                self.opponents[i].update(position);
                proof {
                    assert(self.opponents@ =~= upserted(old(self).opponents@, id, position));
                    assert forall|j: int|
                        0 <= j < self.opponents@.len() implies 0 <= (#[trigger] self.opponents@[j]).position.x
                            && 0 <= self.opponents@[j].position.y by {
                        assert(0 <= old(self).opponents@[j].position.x);
                    }
                }
                return ;
            }
            i = i + 1;
        }
        self.opponents.push(Opponent::init_with_position(id, position));
        proof {
            assert(self.opponents@ =~= upserted(old(self).opponents@, id, position));
            assert forall|j: int|
                0 <= j < self.opponents@.len() implies 0 <= (#[trigger] self.opponents@[j]).position.x
                    && 0 <= self.opponents@[j].position.y by {
                if j < old(self).opponents@.len() {
                    assert(0 <= old(self).opponents@[j].position.x);
                }
            }
        }
    }

    /// Consumes one snapshot: every record is first marked stale, then
    /// every player tile in the snapshot is folded in, in row-major
    /// order, so a record stays stale exactly when its opponent was not
    /// sighted this turn.
    pub fn update_with(&mut self, tiles: &Vec<Tile>, stride: usize)
        requires
            roster_wf(old(self).opponents@),
            1 <= stride <= isize::MAX,
            tiles@.len() <= isize::MAX,
        ensures
            roster_wf(final(self).opponents@),
            ({
                let outdated = Seq::new(
                    old(self).opponents@.len(),
                    |i: int| Opponent { up_to_date: false, ..old(self).opponents@[i] },
                );
                final(self).opponents@ == opponents_after(
                    outdated,
                    tiles@,
                    stride,
                    tiles@.len() as int,
                )
            }),
    {
        self.outdate_opponents();
        let ghost outdated = self.opponents@;
        proof {
            assert(outdated =~= Seq::new(
                old(self).opponents@.len(),
                |i: int| Opponent { up_to_date: false, ..old(self).opponents@[i] },
            ));
            assert forall|j: int|
                0 <= j < outdated.len() implies 0 <= (#[trigger] outdated[j]).position.x && 0
                    <= outdated[j].position.y by {
                assert(0 <= old(self).opponents@[j].position.x);
            }
        }
        let n = tiles.len();
        let mut k: usize = 0;
        while k < n
            invariant
                k <= n,
                n == tiles@.len(),
                1 <= stride <= isize::MAX,
                n <= isize::MAX,
                roster_wf(self.opponents@),
                self.opponents@ == opponents_after(outdated, tiles@, stride, k as int),
            decreases n - k,
        {
            let tile = tiles[k];
            match tile {
                Tile::Player { id } => {
                    let position = Position::from_linear(k, stride);
                    self.upsert(id, position);
                },
                _ => {},
            }
            k = k + 1;
        }
    }
}

} // verus!
