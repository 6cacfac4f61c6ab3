use vstd::prelude::*;

use crate::direction::Direction;
use crate::map::{acid_painted, Grid, MapEntry, Neighbour};
use crate::opponents::{opponents_after, roster_wf, Opponent, Opponents};
use crate::output::{Action, Output};
use crate::path_finding::{spec_find_path, Path};
use crate::player::{Player, PlayerInventory, PlayerStats, Upgrade};
use crate::position::{Dimensions, Position};
use crate::queries::{first_neighbour, nearest_found};
use crate::tile::{tile_is_obstacle, NonPlayerTile, Tile};

verus! {

/// The turn number from which the shrinking acid zone starts to grow.
pub const ACID_START_TURN: usize = 150;

/// How many turns pass between two growths of the acid zone.
pub const ACID_TICK_RATE: usize = 2;

/// The endgame cage build: the chosen entryway next to the grid's
/// centre, and how far the build has progressed.
#[derive(Clone, Copy, Debug, PartialEq, Eq, Hash, Structural)]
pub struct Cage {
    pub entryway: Option<Entryway>,
    pub step: usize,
}

/// The cell from which the cage is entered, and the direction from it
/// toward the centre.
#[derive(Clone, Copy, Debug, PartialEq, Eq, Hash, Structural)]
pub struct Entryway {
    pub center_direction: Direction,
    pub entry: Position,
}

/// One parsed turn report, as the engine consumes it: the grid state
/// carried over, and the agent's reported stats and inventory.
#[derive(Clone, Debug, PartialEq, Eq)]
pub struct GameInput {
    pub map: Grid,
    pub player_position: Position,
    pub player_stats: PlayerStats,
    pub player_inventory: PlayerInventory,
}

/// The fixed order in which upgrades are bought, position by position;
/// past its end nothing further is bought.
pub open spec fn spec_upgrade_queue_at(index: usize) -> Option<Upgrade> {
    if index == 0 {
        Some(Upgrade::Battery)
    } else if index == 1 {
        Some(Upgrade::Sight)
    } else if index == 2 {
        Some(Upgrade::Wheel)
    } else if index == 3 {
        Some(Upgrade::Rifle)
    } else if index == 4 {
        Some(Upgrade::Sight)
    } else if index == 5 {
        Some(Upgrade::Rifle)
    } else if index == 6 {
        Some(Upgrade::Wheel)
    } else if index == 7 {
        Some(Upgrade::Antenna)
    } else if index == 8 {
        Some(Upgrade::Drill)
    } else if index == 9 {
        Some(Upgrade::Drill)
    } else {
        None
    }
}

/// The upgrade bought at the given position of the fixed queue.
#[verifier::when_used_as_spec(spec_upgrade_queue_at)]
pub fn upgrade_queue_at(index: usize) -> (r: Option<Upgrade>)
    ensures
        r == spec_upgrade_queue_at(index),
{
    match index {
        0 => Some(Upgrade::Battery),
        1 => Some(Upgrade::Sight),
        2 => Some(Upgrade::Wheel),
        3 => Some(Upgrade::Rifle),
        4 => Some(Upgrade::Sight),
        5 => Some(Upgrade::Rifle),
        6 => Some(Upgrade::Wheel),
        7 => Some(Upgrade::Antenna),
        8 => Some(Upgrade::Drill),
        9 => Some(Upgrade::Drill),
        _ => None,
    }
}

/// The whole per-game state the engine keeps between turns.
#[derive(Clone, Debug, PartialEq, Eq)]
pub struct Bot {
    pub map: Grid,
    pub player: Player,
    pub opponents: Opponents,
    pub turn: usize,
    pub upgrade_queue_index: usize,
    pub cage: Cage,
}

/// The acid level owed at a turn: zero before the start turn, then one
/// more for every tick elapsed since it.
pub open spec fn spec_acid_level(turn: usize) -> int {
    if turn >= ACID_START_TURN {
        (turn - ACID_START_TURN) / (ACID_TICK_RATE as int) + 1
    } else {
        0
    }
}

impl Bot {
    /// The acid level owed at the bot's current turn.
    pub fn acid_level(&self) -> (r: usize)
        ensures
            r == spec_acid_level(self.turn),
    {
        if self.turn >= ACID_START_TURN {
            (self.turn - ACID_START_TURN) / ACID_TICK_RATE + 1
        } else {
            0
        }
    }

    /// The upgrade the bot is saving toward: healing as soon as it is
    /// badly hurt, else the next entry of the fixed queue.
    pub fn target_upgrade(&self) -> (r: Option<Upgrade>)
        ensures
            r == if self.player.stats.hit_points <= 3 {
                Some(Upgrade::Heal)
            } else {
                spec_upgrade_queue_at(self.upgrade_queue_index)
            },
    {
        if self.player.stats.hit_points <= 3 {
            Some(Upgrade::Heal)
        } else {
            upgrade_queue_at(self.upgrade_queue_index)
        }
    }

    /// Whether the bot both may buy its target upgrade now and has saved
    /// up to its threshold.
    pub fn can_upgrade(&self) -> (r: bool)
        ensures
            r == ((self.player.position == self.player.base || self.player.stats.has_battery)
                && match self.spec_target_upgrade() {
                Some(u) => match crate::player::spec_threshold(u, self.player.stats) {
                    Some(t) => self.player.inventory.iron >= t.iron && self.player.inventory.osmium
                        >= t.osmium,
                    None => false,
                },
                None => false,
            }),
    {
        if !self.player.can_upgrade() {
            return false;
        }
        match self.target_upgrade() {
            Some(target) => self.player.can_afford(target),
            None => false,
        }
    }

    /// Whether the bot should return to base: it has saved up for its
    /// target upgrade but may not buy it where it stands.
    pub fn should_rtb(&self) -> (r: bool)
        ensures
            r == (!(self.player.position == self.player.base || self.player.stats.has_battery)
                && match self.spec_target_upgrade() {
                Some(u) => match crate::player::spec_threshold(u, self.player.stats) {
                    Some(t) => self.player.inventory.iron >= t.iron && self.player.inventory.osmium
                        >= t.osmium,
                    None => false,
                },
                None => false,
            }),
    {
        if self.player.can_upgrade() {
            return false;
        }
        match self.target_upgrade() {
            Some(target) => self.player.can_afford(target),
            None => false,
        }
    }

    /// The target upgrade, as `target_upgrade` computes it.
    pub open spec fn spec_target_upgrade(&self) -> Option<Upgrade> {
        spec_target(self.player, self.upgrade_queue_index)
    }

    /// Buys the target upgrade if that is allowed and affordable right
    /// now, advancing the queue — except for healing, which never
    /// consumes a queue position.
    pub fn try_upgrade(&mut self) -> (r: Option<Upgrade>)
        ensures
            final(self).map == old(self).map,
            final(self).player == old(self).player,
            final(self).opponents == old(self).opponents,
            final(self).turn == old(self).turn,
            final(self).cage == old(self).cage,
            ({
                let buying = (old(self).player.position == old(self).player.base || old(
                    self,
                ).player.stats.has_battery) && match old(self).spec_target_upgrade() {
                    Some(u) => match crate::player::spec_threshold(u, old(self).player.stats) {
                        Some(t) => old(self).player.inventory.iron >= t.iron && old(
                            self,
                        ).player.inventory.osmium >= t.osmium,
                        None => false,
                    },
                    None => false,
                };
                if buying {
                    r == old(self).spec_target_upgrade() && (match r {
                        Some(u) => if u is Heal {
                            final(self).upgrade_queue_index == old(self).upgrade_queue_index
                        } else {
                            final(self).upgrade_queue_index == old(self).upgrade_queue_index + 1
                        },
                        None => final(self).upgrade_queue_index == old(self).upgrade_queue_index,
                    })
                } else {
                    r is None && final(self).upgrade_queue_index == old(self).upgrade_queue_index
                }
            }),
    {
        if self.can_upgrade() {
            match self.target_upgrade() {
                Some(upgrade) => {
                    match upgrade {
                        Upgrade::Heal => Some(Upgrade::Heal),
                        _ => {
                            self.upgrade_queue_index = self.upgrade_queue_index + 1;
                            Some(upgrade)
                        },
                    }
                },
                None => None,
            }
        } else {
            None
        }
    }
}


/// The entries after the start-of-turn feed: the hazard ring owed at
/// this turn painted first, then the snapshot merged in, the agent's own
/// cell forced to `Air`, and a full fill from the agent's position.
pub open spec fn fed_entries(
    entries: Seq<MapEntry>,
    dimensions: Dimensions,
    turn: usize,
    in_tiles: Seq<Tile>,
    in_position: Position,
    wheel_level: int,
) -> Seq<MapEntry> {
    let painted = acid_painted(entries, dimensions, spec_acid_level(turn) as usize);
    let merged = Seq::new(
        painted.len(),
        |i: int| MapEntry { tile: in_tiles[i].merged_over(painted[i].tile), ..painted[i] },
    );
    let a = in_position.linear(dimensions.width);
    let with_air = merged.update(a, MapEntry { tile: Tile::Air, ..merged[a] });
    crate::flood_fill::spec_fill(with_air, dimensions, in_position, wheel_level)
}

impl Bot {
    /// Consumes one turn report: paints the hazard ring owed at the
    /// current turn, fuses the snapshot and refills from the agent's
    /// reported position, feeds the snapshot to the opponent tracker,
    /// and takes over the reported stats and inventory. The turn counter
    /// and all decisions are untouched.
    pub fn feed_input(&mut self, input: &GameInput)
        requires
            old(self).map.wf(),
            input.map.dimensions == old(self).map.dimensions,
            input.map.entries@.len() == old(self).map.entries@.len(),
            input.player_position.in_bounds(old(self).map.dimensions),
            input.player_stats.wheel_level >= 1,
            roster_wf(old(self).opponents.opponents@),
        ensures
            final(self).map.wf(),
            final(self).map.dimensions == old(self).map.dimensions,
            final(self).map.fill_sound(input.player_position),
            final(self).map.entries@ == fed_entries(
                old(self).map.entries@,
                old(self).map.dimensions,
                old(self).turn,
                input.map.tiles(),
                input.player_position,
                input.player_stats.wheel_level as int,
            ),
            roster_wf(final(self).opponents.opponents@),
            final(self).opponents.opponents@ == opponents_after(
                Seq::new(
                    old(self).opponents.opponents@.len(),
                    |i: int| Opponent { up_to_date: false, ..old(self).opponents.opponents@[i] },
                ),
                input.map.tiles(),
                old(self).map.dimensions.width,
                input.map.tiles().len() as int,
            ),
            final(self).player == (Player {
                position: input.player_position,
                stats: input.player_stats,
                inventory: input.player_inventory,
                base: old(self).player.base,
            }),
            final(self).turn == old(self).turn,
            final(self).upgrade_queue_index == old(self).upgrade_queue_index,
            final(self).cage == old(self).cage,
    {
        let ghost dims = self.map.dimensions;
        let level = self.acid_level();
        self.map.update_acid(level);
        let ghost painted = self.map.entries@;
        let tiles = input.map.tiles_vec();
        proof {
            assert(painted =~= acid_painted(
                old(self).map.entries@,
                dims,
                spec_acid_level(old(self).turn) as usize,
            ));
            assert(tiles@.len() == input.map.tiles().len());
        }
        self.map.update_with(
            input.map.dimensions,
            &tiles,
            input.player_position,
            input.player_stats.wheel_level as usize,
        );
        proof {
            let merged = Seq::new(
                painted.len(),
                |i: int| MapEntry { tile: tiles@[i].merged_over(painted[i].tile), ..painted[i] },
            );
            let a = input.player_position.linear(dims.width);
            let with_air = merged.update(a, MapEntry { tile: Tile::Air, ..merged[a] });
            let merged2 = Seq::new(
                painted.len(),
                |i: int| MapEntry {
                    tile: input.map.tiles()[i].merged_over(painted[i].tile),
                    ..painted[i]
                },
            );
            assert(merged =~= merged2);
            assert(self.map.entries@ == crate::flood_fill::spec_fill(
                with_air,
                dims,
                input.player_position,
                input.player_stats.wheel_level as int,
            ));
            assert(self.map.entries@ == fed_entries(
                old(self).map.entries@,
                dims,
                old(self).turn,
                input.map.tiles(),
                input.player_position,
                input.player_stats.wheel_level as int,
            ));
        }
        self.opponents.update_with(&tiles, self.map.dimensions.width);
        self.player = Player {
            position: input.player_position,
            stats: input.player_stats,
            inventory: input.player_inventory,
            base: self.player.base,
        };
    }
}

/// The ordering the anchor choice uses on neighbour distances: a
/// neighbour off the grid has no distance, and "no distance" sorts below
/// every distance.
pub open spec fn opt_distance_lt(a: Option<usize>, b: Option<usize>) -> bool {
    match (a, b) {
        (Option::None, Option::None) => false,
        (Option::None, Option::Some(_)) => true,
        (Option::Some(_), Option::None) => false,
        (Option::Some(x), Option::Some(y)) => x < y,
    }
}

/// Exec counterpart of [`opt_distance_lt`].
fn distance_lt(a: Option<usize>, b: Option<usize>) -> (r: bool)
    ensures
        r == opt_distance_lt(a, b),
{
    match (a, b) {
        (None, None) => false,
        (None, Some(_)) => true,
        (Some(_), None) => false,
        (Some(x), Some(y)) => x < y,
    }
}

/// The grid's central cell.
pub open spec fn center_of(dimensions: Dimensions) -> Position {
    Position { x: (dimensions.width / 2) as isize, y: (dimensions.height / 2) as isize }
}

/// The fill distance a cell offers as a movement target, or `None` off
/// the grid.
pub open spec fn distance_at(
    entries: Seq<MapEntry>,
    dimensions: Dimensions,
    p: Position,
) -> Option<usize> {
    if p.in_bounds(dimensions) {
        Some(entries[p.linear(dimensions.width)].distance)
    } else {
        None
    }
}

/// The cage anchor: among the four neighbours of the grid's centre, the
/// first one of minimal fill distance.
pub open spec fn cage_anchor(entries: Seq<MapEntry>, dimensions: Dimensions) -> Neighbour {
    let c = center_of(dimensions);
    let n0 = Neighbour { direction: Direction::Right, position: c.spec_step(Direction::Right) };
    let n1 = Neighbour { direction: Direction::Up, position: c.spec_step(Direction::Up) };
    let n2 = Neighbour { direction: Direction::Left, position: c.spec_step(Direction::Left) };
    let n3 = Neighbour { direction: Direction::Down, position: c.spec_step(Direction::Down) };
    let b1 = if opt_distance_lt(
        distance_at(entries, dimensions, n1.position),
        distance_at(entries, dimensions, n0.position),
    ) {
        n1
    } else {
        n0
    };
    let b2 = if opt_distance_lt(
        distance_at(entries, dimensions, n2.position),
        distance_at(entries, dimensions, b1.position),
    ) {
        n2
    } else {
        b1
    };
    if opt_distance_lt(
        distance_at(entries, dimensions, n3.position),
        distance_at(entries, dimensions, b2.position),
    ) {
        n3
    } else {
        b2
    }
}

/// Whether the cell at `p` exists and holds exactly the tile `t`.
pub open spec fn tile_is(
    entries: Seq<MapEntry>,
    dimensions: Dimensions,
    p: Position,
    t: Tile,
) -> bool {
    p.in_bounds(dimensions) && entries[p.linear(dimensions.width)].tile == t
}

/// Whether the cell at `p` exists and holds obstacle terrain.
pub open spec fn obstacle_at(entries: Seq<MapEntry>, dimensions: Dimensions, p: Position) -> bool {
    p.in_bounds(dimensions) && tile_is_obstacle(entries[p.linear(dimensions.width)].tile)
}

/// What one look at the cage state machine decides: the progress step it
/// moves to and the cell, if any, to head for next.
pub struct CageDecision {
    pub step: usize,
    pub goal: Option<Position>,
}

/// The cage build state machine, one turn's worth: walls are checked
/// around the entryway, the centre and the spot past the centre, and the
/// build advances a step whenever the current stage's surroundings are
/// as the build plan expects.
pub open spec fn spec_cage_machine(
    entries: Seq<MapEntry>,
    dimensions: Dimensions,
    player_position: Position,
    e: Entryway,
    step0: usize,
) -> CageDecision {
    let c = center_of(dimensions);
    let third_spot = c.spec_step(e.center_direction.spec_opposite());
    let cw = e.center_direction.spec_clockwise();
    let ccw = e.center_direction.spec_counter_clockwise();
    if step0 == 4 {
        CageDecision { step: step0, goal: None }
    } else if player_position == e.entry && tile_is(entries, dimensions, c, Tile::Air)
        && obstacle_at(entries, dimensions, e.entry.spec_step(cw)) && obstacle_at(
        entries,
        dimensions,
        e.entry.spec_step(ccw),
    ) {
        CageDecision { step: 1, goal: Some(c) }
    } else if player_position == c && tile_is(entries, dimensions, third_spot, Tile::Air)
        && tile_is(entries, dimensions, c.spec_step(cw), Tile::Air) && tile_is(
        entries,
        dimensions,
        c.spec_step(ccw),
        Tile::Air,
    ) {
        if step0 == 1 {
            CageDecision { step: 2, goal: Some(third_spot) }
        } else {
            CageDecision { step: 4, goal: None }
        }
    } else if player_position == third_spot && obstacle_at(
        entries,
        dimensions,
        third_spot.spec_step(cw),
    ) && obstacle_at(entries, dimensions, third_spot.spec_step(ccw)) {
        CageDecision { step: 3, goal: Some(c) }
    } else {
        CageDecision { step: if step0 == 3 { 4 } else { step0 }, goal: None }
    }
}

/// The upgrade the bot is saving toward, given its state.
pub open spec fn spec_target(player: Player, upgrade_queue_index: usize) -> Option<Upgrade> {
    if player.stats.hit_points <= 3 {
        Some(Upgrade::Heal)
    } else {
        spec_upgrade_queue_at(upgrade_queue_index)
    }
}

/// Whether the bot has saved up to the threshold of its target upgrade.
pub open spec fn spec_saved_up(player: Player, upgrade_queue_index: usize) -> bool {
    match spec_target(player, upgrade_queue_index) {
        Some(u) => match crate::player::spec_threshold(u, player.stats) {
            Some(t) => player.inventory.iron >= t.iron && player.inventory.osmium >= t.osmium,
            None => false,
        },
        None => false,
    }
}

/// The cage state a grid of the given dimensions can carry: a stored
/// entryway never lies further than one step off the grid, as the
/// anchor that created it never does.
pub open spec fn cage_wf(cage: Cage, dimensions: Dimensions) -> bool {
    match cage.entryway {
        Some(e) => -1 <= e.entry.x <= dimensions.width && -1 <= e.entry.y <= dimensions.height,
        None => true,
    }
}

/// What one movement decision does: the entries as it leaves them (it
/// may widen the hazard ring once), the cage state it moves to, and the
/// path it chose, if any.
pub struct MoveDecision {
    pub entries: Seq<MapEntry>,
    pub cage: Cage,
    pub path: Option<Path>,
}

/// The whole movement policy of one turn. While the acid is still out,
/// the bot mines toward the nearest reachable ore or explores fog —
/// deposits the fill could not reach are passed over, so the goal
/// chain falls through to the next kind — or returns to base to spend
/// savings; once the acid zone exists, it anchors an entryway next to
/// the centre (widening the hazard ring to the cage radius the first
/// time), then runs the cage build state machine.
pub open spec fn spec_try_move(
    entries: Seq<MapEntry>,
    dimensions: Dimensions,
    player: Player,
    cage: Cage,
    turn: usize,
    upgrade_queue_index: usize,
) -> MoveDecision {
    let wheel = player.stats.wheel_level as int;
    if spec_acid_level(turn) > 0 {
        let anchor = cage_anchor(entries, dimensions);
        let repaint = anchor.position == player.position && cage.entryway is None;
        let cage1 = if repaint {
            Cage {
                entryway: Some(
                    Entryway { center_direction: anchor.direction, entry: anchor.position },
                ),
                step: cage.step,
            }
        } else {
            cage
        };
        let entries1 = if repaint {
            acid_painted(
                entries,
                dimensions,
                (if dimensions.width < dimensions.height {
                    dimensions.width
                } else {
                    dimensions.height
                }) / 2,
            )
        } else {
            entries
        };
        match cage1.entryway {
            Some(e) => {
                let decision = spec_cage_machine(entries1, dimensions, player.position, e, cage1.step);
                MoveDecision {
                    entries: entries1,
                    cage: Cage { entryway: cage1.entryway, step: decision.step },
                    path: match decision.goal {
                        Some(goal) => spec_find_path(
                            entries1,
                            dimensions,
                            player.position,
                            goal,
                            wheel,
                        ),
                        None => None,
                    },
                }
            },
            None => MoveDecision {
                entries: entries1,
                cage: cage1,
                path: spec_find_path(entries1, dimensions, player.position, anchor.position, wheel),
            },
        }
    } else if !(player.position == player.base || player.stats.has_battery) && spec_saved_up(
        player,
        upgrade_queue_index,
    ) {
        MoveDecision {
            entries,
            cage,
            path: spec_find_path(entries, dimensions, player.position, player.base, wheel),
        }
    } else {
        let n = entries.len() as int;
        let goal = match nearest_found(entries, dimensions, NonPlayerTile::Osmium, n) {
            Some(g) => Some(g),
            None => match nearest_found(entries, dimensions, NonPlayerTile::Iron, n) {
                Some(g) => Some(g),
                None => nearest_found(entries, dimensions, NonPlayerTile::Fog, n),
            },
        };
        MoveDecision {
            entries,
            cage,
            path: match goal {
                Some(g) => spec_find_path(entries, dimensions, player.position, g, wheel),
                None => None,
            },
        }
    }
}

impl Bot {
    /// Decides this turn's movement: the cage endgame once acid exists,
    /// else return-to-base when savings wait to be spent, else the
    /// nearest osmium, iron or fog. May widen the hazard ring once, when
    /// it first anchors the cage entryway.
    #[verifier::rlimit(100)]
    pub fn try_move(&mut self) -> (r: Option<Path>)
        requires
            old(self).map.wf(),
            old(self).player.stats.wheel_level >= 1,
            cage_wf(old(self).cage, old(self).map.dimensions),
        ensures
            final(self).map.wf(),
            final(self).map.dimensions == old(self).map.dimensions,
            cage_wf(final(self).cage, final(self).map.dimensions),
            ({
                let d = spec_try_move(
                    old(self).map.entries@,
                    old(self).map.dimensions,
                    old(self).player,
                    old(self).cage,
                    old(self).turn,
                    old(self).upgrade_queue_index,
                );
                &&& final(self).map.entries@ == d.entries
                &&& final(self).cage == d.cage
                &&& r == d.path
            }),
            match r {
                Some(p) => p.end_position.in_bounds(old(self).map.dimensions) || p.end_position
                    == old(self).player.position,
                None => true,
            },
            final(self).player == old(self).player,
            final(self).opponents == old(self).opponents,
            final(self).turn == old(self).turn,
            final(self).upgrade_queue_index == old(self).upgrade_queue_index,
    {
        let ghost dims = self.map.dimensions;
        let wheel_level = self.player.stats.wheel_level as usize;
        if self.acid_level() > 0 {
            let center = self.map.center();
            proof {
                assert(center == center_of(dims));
            }
            let neighbours = self.map.neighbours(center);
            let d0 = self.map.distance_to(neighbours[0].position);
            let d1 = self.map.distance_to(neighbours[1].position);
            let d2 = self.map.distance_to(neighbours[2].position);
            let d3 = self.map.distance_to(neighbours[3].position);
            let mut anchor = neighbours[0];
            let mut anchor_distance = d0;
            if distance_lt(d1, anchor_distance) {
                anchor = neighbours[1];
                anchor_distance = d1;
            }
            if distance_lt(d2, anchor_distance) {
                anchor = neighbours[2];
                anchor_distance = d2;
            }
            if distance_lt(d3, anchor_distance) {
                anchor = neighbours[3];
                anchor_distance = d3;
            }
            proof {
                assert(anchor == cage_anchor(self.map.entries@, dims));
            }
            if anchor.position.x == self.player.position.x && anchor.position.y
                == self.player.position.y && self.cage.entryway.is_none() {
                self.cage.entryway = Some(
                    Entryway { center_direction: anchor.direction, entry: anchor.position },
                );
                let smaller_dimension = if self.map.dimensions.width < self.map.dimensions.height {
                    self.map.dimensions.width
                } else {
                    self.map.dimensions.height
                };
                self.map.update_acid(smaller_dimension / 2);
            }
            let ghost cage1 = self.cage;
            let ghost entries1 = self.map.entries@;
            proof {
                self.map.lemma_tiles_index();
            }
            let next: Option<Position> = match self.cage.entryway {
                Some(entryway) => {
                    let ghost e = entryway;
                    let third_spot = center.step(entryway.center_direction.opposite());
                    let cw = entryway.center_direction.clockwise();
                    let ccw = entryway.center_direction.counter_clockwise();
                    let at_entry = self.player.position.x == entryway.entry.x
                        && self.player.position.y == entryway.entry.y;
                    let at_center = self.player.position.x == center.x && self.player.position.y
                        == center.y;
                    let at_third = self.player.position.x == third_spot.x
                        && self.player.position.y == third_spot.y;
                    let center_air = self.map.tile_at_is(center, NonPlayerTile::Air);
                    let third_air = self.map.tile_at_is(third_spot, NonPlayerTile::Air);
                    let center_cw_air = self.map.tile_at_is(center.step(cw), NonPlayerTile::Air);
                    let center_ccw_air = self.map.tile_at_is(center.step(ccw), NonPlayerTile::Air);
                    let entry_cw_wall = self.map.tile_at_is_obstacle(entryway.entry.step(cw));
                    let entry_ccw_wall = self.map.tile_at_is_obstacle(entryway.entry.step(ccw));
                    let third_cw_wall = self.map.tile_at_is_obstacle(third_spot.step(cw));
                    let third_ccw_wall = self.map.tile_at_is_obstacle(third_spot.step(ccw));
                    proof {
                        let c = center_of(dims);
                        let scw = e.center_direction.spec_clockwise();
                        let sccw = e.center_direction.spec_counter_clockwise();
                        let third = c.spec_step(e.center_direction.spec_opposite());
                        assert(at_entry == (self.player.position == e.entry));
                        assert(at_center == (self.player.position == c));
                        assert(at_third == (self.player.position == third));
                        if c.in_bounds(dims) {
                            crate::position::lemma_linear_round_trip(c, dims);
                        }
                        if third.in_bounds(dims) {
                            crate::position::lemma_linear_round_trip(third, dims);
                        }
                        if c.spec_step(scw).in_bounds(dims) {
                            crate::position::lemma_linear_round_trip(c.spec_step(scw), dims);
                        }
                        if c.spec_step(sccw).in_bounds(dims) {
                            crate::position::lemma_linear_round_trip(c.spec_step(sccw), dims);
                        }
                        if e.entry.spec_step(scw).in_bounds(dims) {
                            crate::position::lemma_linear_round_trip(e.entry.spec_step(scw), dims);
                        }
                        if e.entry.spec_step(sccw).in_bounds(dims) {
                            crate::position::lemma_linear_round_trip(e.entry.spec_step(sccw), dims);
                        }
                        if third.spec_step(scw).in_bounds(dims) {
                            crate::position::lemma_linear_round_trip(third.spec_step(scw), dims);
                        }
                        if third.spec_step(sccw).in_bounds(dims) {
                            crate::position::lemma_linear_round_trip(third.spec_step(sccw), dims);
                        }
                        assert(center_air == tile_is(entries1, dims, c, Tile::Air));
                        assert(third_air == tile_is(entries1, dims, third, Tile::Air));
                        assert(center_cw_air == tile_is(entries1, dims, c.spec_step(scw), Tile::Air));
                        assert(center_ccw_air == tile_is(entries1, dims, c.spec_step(sccw), Tile::Air));
                        assert(entry_cw_wall == obstacle_at(entries1, dims, e.entry.spec_step(scw)));
                        assert(entry_ccw_wall == obstacle_at(entries1, dims, e.entry.spec_step(sccw)));
                        assert(third_cw_wall == obstacle_at(entries1, dims, third.spec_step(scw)));
                        assert(third_ccw_wall == obstacle_at(entries1, dims, third.spec_step(sccw)));
                    }
                    if self.cage.step == 4 {
                        None
                    } else if at_entry && center_air && entry_cw_wall && entry_ccw_wall {
                        self.cage.step = 1;
                        Some(center)
                    } else if at_center && third_air && center_cw_air && center_ccw_air {
                        if self.cage.step == 1 {
                            self.cage.step = 2;
                            Some(third_spot)
                        } else {
                            self.cage.step = 4;
                            None
                        }
                    } else if at_third && third_cw_wall && third_ccw_wall {
                        self.cage.step = 3;
                        Some(center)
                    } else {
                        if self.cage.step == 3 {
                            self.cage.step = 4;
                        }
                        None
                    }
                },
                None => Some(anchor.position),
            };
            proof {
                match cage1.entryway {
                    Some(e) => {
                        let dec = spec_cage_machine(
                            entries1,
                            dims,
                            self.player.position,
                            e,
                            cage1.step,
                        );
                        assert(self.cage.step == dec.step);
                        assert(next == dec.goal);
                        assert(self.cage == (Cage { entryway: cage1.entryway, step: dec.step }));
                    },
                    None => {
                        assert(next == Some(cage_anchor(old(self).map.entries@, dims).position));
                        assert(self.cage == cage1);
                    },
                }
            }
            let result = match next {
                Some(goal) => {
                    proof {
                        crate::path_finding::lemma_path_end_position(
                            self.map.entries@,
                            dims,
                            self.player.position,
                            goal,
                            wheel_level as int,
                        );
                    }
                    self.map.find_path(self.player.position, goal, wheel_level)
                },
                None => None,
            };
            proof {
                let d = spec_try_move(
                    old(self).map.entries@,
                    old(self).map.dimensions,
                    old(self).player,
                    old(self).cage,
                    old(self).turn,
                    old(self).upgrade_queue_index,
                );
                assert(anchor == cage_anchor(old(self).map.entries@, dims));
                assert(self.map.entries@ == d.entries);
                assert(self.cage == d.cage);
                assert(result == d.path);
            }
            result
        } else if self.should_rtb() {
            proof {
                crate::path_finding::lemma_path_end_position(
                    self.map.entries@,
                    dims,
                    self.player.position,
                    self.player.base,
                    wheel_level as int,
                );
            }
            self.map.find_path(self.player.position, self.player.base, wheel_level)
        } else {
            let nearest = match self.map.nearest_tile(NonPlayerTile::Osmium) {
                Some(g) => Some(g),
                None => match self.map.nearest_tile(NonPlayerTile::Iron) {
                    Some(g) => Some(g),
                    None => self.map.nearest_tile(NonPlayerTile::Fog),
                },
            };
            match nearest {
                Some(goal) => {
                    proof {
                        crate::path_finding::lemma_path_end_position(
                            self.map.entries@,
                            dims,
                            self.player.position,
                            goal,
                            wheel_level as int,
                        );
                    }
                    self.map.find_path(self.player.position, goal, wheel_level)
                },
                None => None,
            }
        }
    }
}


/// Everything one turn produces: the state the bot moves to, field by
/// field, and the command it answers with.
pub struct TurnOutcome {
    pub entries: Seq<MapEntry>,
    pub player: Player,
    pub opponents: Seq<Opponent>,
    pub turn: usize,
    pub upgrade_queue_index: usize,
    pub cage: Cage,
    pub output: Output,
}

/// One whole turn, from a fresh report to the command answered: feed
/// the report in, decide the movement, aim the mining action (adjacent
/// ore first, then the path's own mining step, then any adjacent
/// clearable wall), and buy the target upgrade if allowed, advancing
/// the purchase queue.
pub open spec fn spec_turn(
    entries0: Seq<MapEntry>,
    dimensions: Dimensions,
    player0: Player,
    opponents0: Seq<Opponent>,
    turn0: usize,
    index0: usize,
    cage0: Cage,
    in_tiles: Seq<Tile>,
    in_position: Position,
    in_stats: PlayerStats,
    in_inventory: PlayerInventory,
) -> TurnOutcome {
    let fed = fed_entries(
        entries0,
        dimensions,
        turn0,
        in_tiles,
        in_position,
        in_stats.wheel_level as int,
    );
    let opponents1 = opponents_after(
        Seq::new(opponents0.len(), |i: int| Opponent { up_to_date: false, ..opponents0[i] }),
        in_tiles,
        dimensions.width,
        in_tiles.len() as int,
    );
    let player1 = Player {
        position: in_position,
        stats: in_stats,
        inventory: in_inventory,
        base: player0.base,
    };
    let moved = spec_try_move(fed, dimensions, player1, cage0, turn0, index0);
    let new_position = match moved.path {
        Some(p) => p.end_position,
        None => player1.position,
    };
    let player2 = Player { position: new_position, ..player1 };
    let tiles2 = moved.entries.map_values(|e: MapEntry| e.tile);
    let path_mine = match moved.path {
        Some(p) => p.mine_direction,
        None => None,
    };
    let mine_direction = match first_neighbour(
        tiles2,
        dimensions,
        new_position,
        seq![NonPlayerTile::Osmium, NonPlayerTile::Iron],
        0,
    ) {
        Some(nb) => Some(nb.direction),
        None => match path_mine {
            Some(d) => Some(d),
            None => match first_neighbour(
                tiles2,
                dimensions,
                new_position,
                seq![NonPlayerTile::Cobblestone, NonPlayerTile::Stone],
                0,
            ) {
                Some(nb) => Some(nb.direction),
                None => None,
            },
        },
    };
    let action = match mine_direction {
        Some(direction) => Some(Action::Mine { direction }),
        None => None,
    };
    let buying = (player2.position == player2.base || player2.stats.has_battery) && spec_saved_up(
        player2,
        index0,
    );
    let upgrade = if buying {
        spec_target(player2, index0)
    } else {
        None
    };
    let index1 = if buying {
        match spec_target(player2, index0) {
            Some(u) => if u is Heal {
                index0
            } else {
                (index0 + 1) as usize
            },
            None => index0,
        }
    } else {
        index0
    };
    TurnOutcome {
        entries: moved.entries,
        player: player2,
        opponents: opponents1,
        turn: (turn0 + 1) as usize,
        upgrade_queue_index: index1,
        cage: moved.cage,
        output: Output {
            moves: match moved.path {
                Some(p) => Some(p.moves),
                None => None,
            },
            action,
            upgrade,
        },
    }
}

impl Bot {
    /// Runs one whole turn: consumes the report, recomputes the fill,
    /// decides this turn's moves, mining aim and upgrade purchase, and
    /// returns the command to answer with.
    #[verifier::rlimit(100)]
    pub fn turn(&mut self, input: &GameInput) -> (r: Output)
        requires
            old(self).map.wf(),
            input.map.dimensions == old(self).map.dimensions,
            input.map.entries@.len() == old(self).map.entries@.len(),
            input.player_position.in_bounds(old(self).map.dimensions),
            input.player_stats.wheel_level >= 1,
            roster_wf(old(self).opponents.opponents@),
            cage_wf(old(self).cage, old(self).map.dimensions),
            old(self).turn < usize::MAX,
        ensures
            final(self).map.wf(),
            final(self).map.dimensions == old(self).map.dimensions,
            roster_wf(final(self).opponents.opponents@),
            cage_wf(final(self).cage, final(self).map.dimensions),
            ({
                let o = spec_turn(
                    old(self).map.entries@,
                    old(self).map.dimensions,
                    old(self).player,
                    old(self).opponents.opponents@,
                    old(self).turn,
                    old(self).upgrade_queue_index,
                    old(self).cage,
                    input.map.tiles(),
                    input.player_position,
                    input.player_stats,
                    input.player_inventory,
                );
                &&& final(self).map.entries@ == o.entries
                &&& final(self).player == o.player
                &&& final(self).opponents.opponents@ == o.opponents
                &&& final(self).turn == o.turn
                &&& final(self).upgrade_queue_index == o.upgrade_queue_index
                &&& final(self).cage == o.cage
                &&& r == o.output
            }),
    {
        self.feed_input(input);
        let path = self.try_move();
        let ghost moved_entries = self.map.entries@;
        let (moves, new_position, mine_direction) = match path {
            Some(p) => (Some(p.moves), p.end_position, p.mine_direction),
            None => (None, self.player.position, None),
        };
        proof {
            assert(new_position.in_bounds(self.map.dimensions) || new_position
                == input.player_position);
        }
        self.player = Player {
            position: new_position,
            stats: self.player.stats,
            inventory: self.player.inventory,
            base: self.player.base,
        };
        proof {
            self.map.lemma_tiles_index();
            assert(self.map.tiles() =~= moved_entries.map_values(|e: MapEntry| e.tile));
        }
        let ore_targets = vec![NonPlayerTile::Osmium, NonPlayerTile::Iron];
        let wall_targets = vec![NonPlayerTile::Cobblestone, NonPlayerTile::Stone];
        proof {
            assert(ore_targets@ =~= seq![NonPlayerTile::Osmium, NonPlayerTile::Iron]);
            assert(wall_targets@ =~= seq![NonPlayerTile::Cobblestone, NonPlayerTile::Stone]);
        }
        let mine_direction = match self.map.find_neighbour(self.player.position, &ore_targets) {
            Some(nb) => Some(nb.direction),
            None => match mine_direction {
                Some(d) => Some(d),
                None => match self.map.find_neighbour(self.player.position, &wall_targets) {
                    Some(nb) => Some(nb.direction),
                    None => None,
                },
            },
        };
        let action = match mine_direction {
            Some(direction) => Some(Action::Mine { direction }),
            None => None,
        };
        let upgrade = self.try_upgrade();
        self.turn = self.turn + 1;
        Output { moves, action, upgrade }
    }
}

/// Builds a fresh engine from the very first turn report — every cell
/// starting as the snapshot shows it, the base pinned to the starting
/// position — and immediately plays that first turn.
pub fn try_init(input: &GameInput) -> (r: (Bot, Output))
    requires
        input.map.wf(),
        input.player_position.in_bounds(input.map.dimensions),
        input.player_stats.wheel_level >= 1,
    ensures
        r.0.map.wf(),
        r.0.map.dimensions == input.map.dimensions,
        roster_wf(r.0.opponents.opponents@),
        cage_wf(r.0.cage, r.0.map.dimensions),
        ({
            let dimensions = input.map.dimensions;
            let start = Seq::new(
                input.map.entries@.len(),
                |i: int| MapEntry {
                    tile: input.map.tiles()[i],
                    distance: crate::UNREACHED,
                    parent: None::<crate::map::ParentInfo>,
                },
            );
            let fed = crate::flood_fill::spec_fill(
                ({
                    let merged = Seq::new(
                        start.len(),
                        |i: int| MapEntry {
                            tile: input.map.tiles()[i].merged_over(start[i].tile),
                            ..start[i]
                        },
                    );
                    let a = input.player_position.linear(dimensions.width);
                    merged.update(a, MapEntry { tile: Tile::Air, ..merged[a] })
                }),
                dimensions,
                input.player_position,
                input.player_stats.wheel_level as int,
            );
            let opponents1 = opponents_after(
                Seq::empty(),
                input.map.tiles(),
                dimensions.width,
                input.map.tiles().len() as int,
            );
            let player1 = Player {
                position: input.player_position,
                stats: input.player_stats,
                inventory: input.player_inventory,
                base: input.player_position,
            };
            let o = spec_turn(
                fed,
                dimensions,
                player1,
                opponents1,
                0,
                0,
                Cage { entryway: None, step: 0 },
                input.map.tiles(),
                input.player_position,
                input.player_stats,
                input.player_inventory,
            );
            &&& r.0.map.entries@ == o.entries
            &&& r.0.player == o.player
            &&& r.0.opponents.opponents@ == o.opponents
            &&& r.0.turn == o.turn
            &&& r.0.upgrade_queue_index == o.upgrade_queue_index
            &&& r.0.cage == o.cage
            &&& r.1 == o.output
        }),
{
    let ghost dimensions = input.map.dimensions;
    let tiles = input.map.tiles_vec();
    let mut map = Grid::new(input.map.dimensions);
    map.merge_with(&tiles);
    proof {
        assert(map.entries@ =~= Seq::new(
            input.map.entries@.len(),
            |i: int| MapEntry {
                tile: input.map.tiles()[i],
                distance: crate::UNREACHED,
                parent: None::<crate::map::ParentInfo>,
            },
        )) by {
            assert(forall|i: int|
                0 <= i < tiles@.len() ==> (#[trigger] tiles@[i]).merged_over(Tile::Fog)
                    == tiles@[i].merged_over(Tile::Fog));
        }
    }
    let ghost start = map.entries@;
    map.update_with(
        input.map.dimensions,
        &tiles,
        input.player_position,
        input.player_stats.wheel_level as usize,
    );
    let mut opponents = Opponents::new();
    opponents.update_with(&tiles, input.map.dimensions.width);
    proof {
        assert(Seq::new(
            0,
            |i: int| Opponent { up_to_date: false, ..Seq::<Opponent>::empty()[i] },
        ) =~= Seq::<Opponent>::empty());
        assert(opponents.opponents@ == opponents_after(
            Seq::empty(),
            tiles@,
            input.map.dimensions.width,
            tiles@.len() as int,
        ));
    }
    let mut bot = Bot {
        map,
        player: Player {
            position: input.player_position,
            stats: input.player_stats,
            inventory: input.player_inventory,
            base: input.player_position,
        },
        opponents,
        turn: 0,
        upgrade_queue_index: 0,
        cage: Cage { entryway: None, step: 0 },
    };
    let first_output = bot.turn(input);
    (bot, first_output)
}

} // verus!


