use vstd::prelude::*;

use crate::bot::{fed_entries, spec_turn, Bot, Cage, GameInput};
use crate::map::{Grid, MapEntry, ParentInfo};
use crate::opponents::{opponents_after, roster_wf, Opponent, Opponents};
use crate::output::Output;
use crate::player::Player;
use crate::position::Position;
use crate::UNREACHED;

verus! {

/// What is remembered of the lone opponent between turns: where it was
/// last seen, whether that sighting is current, and its inferred gun
/// and wheel levels.
#[derive(Clone, Copy, Debug, PartialEq, Eq, Hash, Structural)]
pub struct CachedPlayer {
    pub up_to_date: bool,
    pub position: Position,
    pub gun_level: u8,
    pub wheel_level: u8,
}

/// The per-game state under its older driver surface: the same engine
/// as [`Bot`], driven by `process_input` and `magic` instead of
/// `feed_input` and `turn`.
#[derive(Clone, Debug, PartialEq, Eq)]
pub struct GameState {
    pub bot: Bot,
}

/// The index of the first roster record confirmed by the latest
/// snapshot, or `-1` when none is.
pub open spec fn first_up_to_date(s: Seq<Opponent>, i: int) -> int
    decreases s.len() - i,
{
    if i < 0 || i >= s.len() {
        -1
    } else if s[i].up_to_date {
        i
    } else {
        first_up_to_date(s, i + 1)
    }
}

impl GameState {
    /// Starts or continues a game: the very first report builds the
    /// whole state (base pinned to the starting cell, every sighted
    /// opponent recorded), and every later report is fed into the
    /// carried state. No decision is taken here. Note that [`Self::magic`]
    /// already consumes a report itself: hand each report to one of the
    /// two, not both, or the opponent tracker folds the same sightings
    /// in twice.
    pub fn process_input(previous: Option<GameState>, input: &GameInput) -> (r: GameState)
        requires
            input.map.wf(),
            input.player_position.in_bounds(input.map.dimensions),
            input.player_stats.wheel_level >= 1,
            match previous {
                Some(gs) => {
                    &&& gs.bot.map.wf()
                    &&& gs.bot.map.dimensions == input.map.dimensions
                    &&& gs.bot.map.entries@.len() == input.map.entries@.len()
                    &&& roster_wf(gs.bot.opponents.opponents@)
                },
                None => true,
            },
        ensures
            r.bot.map.wf(),
            r.bot.map.dimensions == input.map.dimensions,
            roster_wf(r.bot.opponents.opponents@),
            match previous {
                Some(gs) => {
                    &&& r.bot.map.entries@ == fed_entries(
                        gs.bot.map.entries@,
                        gs.bot.map.dimensions,
                        gs.bot.turn,
                        input.map.tiles(),
                        input.player_position,
                        input.player_stats.wheel_level as int,
                    )
                    &&& r.bot.opponents.opponents@ == opponents_after(
                        Seq::new(
                            gs.bot.opponents.opponents@.len(),
                            |i: int| Opponent {
                                up_to_date: false,
                                ..gs.bot.opponents.opponents@[i]
                            },
                        ),
                        input.map.tiles(),
                        gs.bot.map.dimensions.width,
                        input.map.tiles().len() as int,
                    )
                    &&& r.bot.player == (Player {
                        position: input.player_position,
                        stats: input.player_stats,
                        inventory: input.player_inventory,
                        base: gs.bot.player.base,
                    })
                    &&& r.bot.turn == gs.bot.turn
                    &&& r.bot.upgrade_queue_index == gs.bot.upgrade_queue_index
                    &&& r.bot.cage == gs.bot.cage
                },
                None => {
                    let start = Seq::new(
                        input.map.entries@.len(),
                        |i: int| MapEntry {
                            tile: input.map.tiles()[i],
                            distance: UNREACHED,
                            parent: None::<ParentInfo>,
                        },
                    );
                    &&& r.bot.map.entries@ == fed_entries(
                        start,
                        input.map.dimensions,
                        0,
                        input.map.tiles(),
                        input.player_position,
                        input.player_stats.wheel_level as int,
                    )
                    &&& r.bot.opponents.opponents@ == opponents_after(
                        Seq::empty(),
                        input.map.tiles(),
                        input.map.dimensions.width,
                        input.map.tiles().len() as int,
                    )
                    &&& r.bot.player == (Player {
                        position: input.player_position,
                        stats: input.player_stats,
                        inventory: input.player_inventory,
                        base: input.player_position,
                    })
                    &&& r.bot.turn == 0
                    &&& r.bot.upgrade_queue_index == 0
                    &&& r.bot.cage == (Cage { entryway: None, step: 0 })
                },
            },
    {
        match previous {
            Some(mut gs) => {
                gs.bot.feed_input(input);
                gs
            },
            None => {
                let tiles = input.map.tiles_vec();
                let mut map = Grid::new(input.map.dimensions);
                map.merge_with(&tiles);
                proof {
                    assert(map.entries@ =~= Seq::new(
                        input.map.entries@.len(),
                        |i: int| MapEntry {
                            tile: input.map.tiles()[i],
                            distance: UNREACHED,
                            parent: None::<ParentInfo>,
                        },
                    ));
                }
                let mut opponents = Opponents::new();
                let mut bot = Bot {
                    map,
                    player: Player {
                        position: input.player_position,
                        stats: input.player_stats,
                        inventory: input.player_inventory,
                        base: input.player_position,
                    },
                    opponents,
                    turn: 0,
                    upgrade_queue_index: 0,
                    cage: Cage { entryway: None, step: 0 },
                };
                bot.feed_input(input);
                proof {
                    assert(Seq::new(
                        0,
                        |i: int| Opponent { up_to_date: false, ..Seq::<Opponent>::empty()[i] },
                    ) =~= Seq::<Opponent>::empty());
                }
                GameState { bot }
            },
        }
    }

    /// Plays one whole turn on the carried state and returns the
    /// command to answer with; the older name of [`Bot::turn`].
    pub fn magic(&mut self, input: &GameInput) -> (r: Output)
        requires
            old(self).bot.map.wf(),
            input.map.dimensions == old(self).bot.map.dimensions,
            input.map.entries@.len() == old(self).bot.map.entries@.len(),
            input.player_position.in_bounds(old(self).bot.map.dimensions),
            input.player_stats.wheel_level >= 1,
            roster_wf(old(self).bot.opponents.opponents@),
            crate::bot::cage_wf(old(self).bot.cage, old(self).bot.map.dimensions),
            old(self).bot.turn < usize::MAX,
        ensures
            final(self).bot.map.wf(),
            roster_wf(final(self).bot.opponents.opponents@),
            crate::bot::cage_wf(final(self).bot.cage, final(self).bot.map.dimensions),
            ({
                let o = spec_turn(
                    old(self).bot.map.entries@,
                    old(self).bot.map.dimensions,
                    old(self).bot.player,
                    old(self).bot.opponents.opponents@,
                    old(self).bot.turn,
                    old(self).bot.upgrade_queue_index,
                    old(self).bot.cage,
                    input.map.tiles(),
                    input.player_position,
                    input.player_stats,
                    input.player_inventory,
                );
                &&& final(self).bot.map.entries@ == o.entries
                &&& final(self).bot.player == o.player
                &&& final(self).bot.opponents.opponents@ == o.opponents
                &&& final(self).bot.turn == o.turn
                &&& final(self).bot.upgrade_queue_index == o.upgrade_queue_index
                &&& final(self).bot.cage == o.cage
                &&& r == o.output
            }),
    {
        self.bot.turn(input)
    }

    /// The position of the lone tracked opponent, if its latest
    /// sighting is current: the first confirmed record of the roster.
    pub fn opponent_exact_position(&self) -> (r: Option<Position>)
        ensures
            r == ({
                let at = first_up_to_date(self.bot.opponents.opponents@, 0);
                if at >= 0 {
                    Some(self.bot.opponents.opponents@[at].position)
                } else {
                    None::<Position>
                }
            }),
    {
        let n = self.bot.opponents.opponents.len();
        let mut i: usize = 0;
        while i < n
            invariant
                i <= n,
                n == self.bot.opponents.opponents@.len(),
                first_up_to_date(self.bot.opponents.opponents@, 0) == first_up_to_date(
                    self.bot.opponents.opponents@,
                    i as int,
                ),
            decreases n - i,
        {
            if self.bot.opponents.opponents[i].up_to_date {
                return Some(self.bot.opponents.opponents[i].position);
            }
            i = i + 1;
        }
        None
    }

    /// The first confirmed opponent record, in the compact form the
    /// older driver surface kept it in.
    pub fn cached_player(&self) -> (r: Option<CachedPlayer>)
        ensures
            r == ({
                let at = first_up_to_date(self.bot.opponents.opponents@, 0);
                if at >= 0 {
                    let o = self.bot.opponents.opponents@[at];
                    Some(
                        CachedPlayer {
                            up_to_date: o.up_to_date,
                            position: o.position,
                            gun_level: o.stats.rifle_level,
                            wheel_level: o.stats.wheel_level,
                        },
                    )
                } else {
                    None::<CachedPlayer>
                }
            }),
    {
        let n = self.bot.opponents.opponents.len();
        let mut i: usize = 0;
        while i < n
            invariant
                i <= n,
                n == self.bot.opponents.opponents@.len(),
                first_up_to_date(self.bot.opponents.opponents@, 0) == first_up_to_date(
                    self.bot.opponents.opponents@,
                    i as int,
                ),
            decreases n - i,
        {
            let o = self.bot.opponents.opponents[i];
            if o.up_to_date {
                return Some(
                    CachedPlayer {
                        up_to_date: o.up_to_date,
                        position: o.position,
                        gun_level: o.stats.rifle_level,
                        wheel_level: o.stats.wheel_level,
                    },
                );
            }
            i = i + 1;
        }
        None
    }
}

} // verus!
