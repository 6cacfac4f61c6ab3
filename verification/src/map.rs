use vstd::prelude::*;

use crate::direction::Direction;
use crate::position::{Dimensions, Position};
use crate::tile::{NonPlayerTile, Tile};
use crate::UNREACHED;

verus! {

/// How a cell was reached during a fill: the move that enters it, the
/// cell it was entered from, whether entering it costs a mining action,
/// and the cell's index in the repeating per-turn move cycle.
#[derive(Clone, Copy, Debug, PartialEq, Eq, Hash, Structural)]
pub struct ParentInfo {
    pub direction: Direction,
    pub location: Position,
    pub requires_mining: bool,
    pub turn_move_index: usize,
}

impl ParentInfo {
    pub fn new(
        direction: Direction,
        parent_location: Position,
        requires_mining: bool,
        turn_move_index: usize,
    ) -> (r: ParentInfo)
        ensures
            r == (ParentInfo { direction, location: parent_location, requires_mining, turn_move_index }),
    {
        ParentInfo { direction, location: parent_location, requires_mining, turn_move_index }
    }
}

/// One grid cell's full search state: its tile, the cumulative cost of
/// the cheapest known route to it, and the back-pointer that route came
/// through (`None` for the source and for unreached cells).
#[derive(Clone, Copy, Debug, PartialEq, Eq, Hash, Structural)]
pub struct MapEntry {
    pub tile: Tile,
    pub distance: usize,
    pub parent: Option<ParentInfo>,
}

impl MapEntry {
    /// A fresh, unreached cell holding the given tile.
    pub fn new(tile: Tile) -> (r: MapEntry)
        ensures
            r == (MapEntry { tile, distance: UNREACHED, parent: None::<ParentInfo> }),
    {
        MapEntry { tile, distance: UNREACHED, parent: None }
    }
}

impl Default for MapEntry {
    /// An unobserved, unreached cell.
    fn default() -> (r: Self)
        ensures
            r == (MapEntry { tile: Tile::Fog, distance: UNREACHED, parent: None::<ParentInfo> }),
    {
        MapEntry { tile: Tile::Fog, distance: UNREACHED, parent: None }
    }
}

/// A neighbouring cell together with the direction that leads to it.
#[derive(Clone, Copy, Debug, PartialEq, Eq, Hash, Structural)]
pub struct Neighbour {
    pub direction: Direction,
    pub position: Position,
}

/// The position whose row-major linear index is `i`.
pub open spec fn pos_at(dimensions: Dimensions, i: int) -> Position {
    Position {
        x: (i % (dimensions.width as int)) as isize,
        y: (i / (dimensions.width as int)) as isize,
    }
}

/// Structural soundness of one cell's search state: its distance never
/// exceeds the unreached sentinel, and a back-pointer always leads to an
/// in-bounds neighbour that is strictly closer to the source.
pub open spec fn entry_wf(entries: Seq<MapEntry>, dimensions: Dimensions, i: int) -> bool {
    let e = entries[i];
    &&& e.distance <= UNREACHED
    &&& match e.parent {
        None => true,
        Some(p) => {
            &&& e.distance < UNREACHED
            &&& p.location.in_bounds(dimensions)
            &&& entries[p.location.linear(dimensions.width)].distance < e.distance
            &&& p.location.spec_step(p.direction) == pos_at(dimensions, i)
        },
    }
}

/// A mutation that changes only tiles leaves every cell's search state
/// structurally sound.
pub proof fn lemma_wf_tiles_only(a: Seq<MapEntry>, b: Seq<MapEntry>, dimensions: Dimensions)
    requires
        dimensions.valid(),
        a.len() == b.len(),
        a.len() == dimensions.width * dimensions.height,
        forall|j: int| #![trigger b[j]]
            0 <= j < a.len() ==> b[j].distance == a[j].distance && b[j].parent == a[j].parent,
        forall|j: int| 0 <= j < a.len() ==> entry_wf(a, dimensions, j),
    ensures
        forall|j: int| 0 <= j < b.len() ==> entry_wf(b, dimensions, j),
{
    assert forall|j: int| 0 <= j < b.len() implies entry_wf(b, dimensions, j) by {
        assert(entry_wf(a, dimensions, j));
        assert(b[j].distance == a[j].distance && b[j].parent == a[j].parent);
        match a[j].parent {
            None => {},
            Some(p) => {
                crate::position::lemma_linear_round_trip(p.location, dimensions);
                let k = p.location.linear(dimensions.width);
                assert(b[k].distance == a[k].distance && b[k].parent == a[k].parent);
            },
        }
    }
}

/// The persistent grid: dimensions fixed at construction and one
/// `MapEntry` per cell, stored row-major.
#[derive(Clone, Debug, PartialEq, Eq)]
pub struct Grid {
    pub dimensions: Dimensions,
    pub entries: Vec<MapEntry>,
}

impl Grid {
    /// The grid invariant: the entry count matches the dimensions, and
    /// every cell's search state is structurally sound. Every public
    /// constructor establishes it and every public method preserves it.
    pub open spec fn wf(self) -> bool {
        &&& self.dimensions.valid()
        &&& self.entries.len() == self.dimensions.width * self.dimensions.height
        &&& forall|i: int|
            0 <= i < self.entries.len() ==> entry_wf(self.entries@, self.dimensions, i)
    }

    /// The tiles of all cells, in row-major order.
    pub open spec fn tiles(self) -> Seq<Tile> {
        self.entries@.map_values(|e: MapEntry| e.tile)
    }

    /// The tiles of all cells as a plain vector, in row-major order.
    pub fn tiles_vec(&self) -> (r: Vec<Tile>)
        ensures
            r@ == self.tiles(),
    {
        let n = self.entries.len();
        let mut r: Vec<Tile> = Vec::new();
        let mut i: usize = 0;
        while i < n
            invariant
                i <= n,
                n == self.entries@.len(),
                r@.len() == i,
                forall|j: int| 0 <= j < i ==> r@[j] == self.entries@[j].tile,
            decreases n - i,
        {
            r.push(self.entries[i].tile);
            i = i + 1;
        }
        proof {
            assert(r@ =~= self.tiles());
        }
        r
    }

    /// The tiles view indexes cell by cell.
    pub proof fn lemma_tiles_index(self)
        ensures
            self.tiles().len() == self.entries@.len(),
            forall|i: int|
                0 <= i < self.entries@.len() ==> (#[trigger] self.tiles()[i])
                    == self.entries@[i].tile,
    {
    }

    /// A fresh grid: every cell `Fog`, unreached, with no parent.
    pub fn new(dimensions: Dimensions) -> (r: Grid)
        requires
            dimensions.valid(),
        ensures
            r.wf(),
            r.dimensions == dimensions,
            r.entries@ == Seq::new(
                (dimensions.width * dimensions.height) as nat,
                |i: int| MapEntry { tile: Tile::Fog, distance: UNREACHED, parent: None::<ParentInfo> },
            ),
    {
        let n = dimensions.width * dimensions.height;
        let mut entries: Vec<MapEntry> = Vec::new();
        let mut i: usize = 0;
        while i < n
            invariant
                i <= n,
                entries@ == Seq::new(
                    i as nat,
                    |j: int| MapEntry { tile: Tile::Fog, distance: UNREACHED, parent: None::<ParentInfo> },
                ),
            decreases n - i,
        {
            entries.push(MapEntry { tile: Tile::Fog, distance: UNREACHED, parent: None });
            i = i + 1;
            proof {
                assert(entries@ =~= Seq::new(
                    i as nat,
                    |j: int| MapEntry { tile: Tile::Fog, distance: UNREACHED, parent: None::<ParentInfo> },
                ));
            }
        }
        Grid { dimensions, entries }
    }

    /// The cell at `position`, or `None` if the position is out of bounds.
    pub fn entry_at(&self, position: Position) -> (r: Option<MapEntry>)
        requires
            self.wf(),
        ensures
            r == if position.in_bounds(self.dimensions) {
                Some(self.entries@[position.linear(self.dimensions.width)])
            } else {
                None::<MapEntry>
            },
    {
        if position.is_within_bounds(self.dimensions) {
            proof {
                crate::position::lemma_linear_round_trip(position, self.dimensions);
            }
            let index = position.to_linear(self.dimensions.width);
            Some(self.entries[index])
        } else {
            None
        }
    }

    /// The tile at `position`, or `None` if the position is out of bounds.
    pub fn tile_at(&self, position: Position) -> (r: Option<Tile>)
        requires
            self.wf(),
        ensures
            r == if position.in_bounds(self.dimensions) {
                Some(self.tiles()[position.linear(self.dimensions.width)])
            } else {
                None::<Tile>
            },
    {
        proof {
            if position.in_bounds(self.dimensions) {
                crate::position::lemma_linear_round_trip(position, self.dimensions);
                assert(self.tiles()[position.linear(self.dimensions.width)] == self.entries@[
                    position.linear(self.dimensions.width)
                ].tile);
            }
        }
        match self.entry_at(position) {
            Some(entry) => Some(entry.tile),
            None => None,
        }
    }

    /// The fill distance of the cell at `position`, or `None` if the
    /// position is out of bounds.
    pub fn distance_to(&self, position: Position) -> (r: Option<usize>)
        requires
            self.wf(),
        ensures
            r == if position.in_bounds(self.dimensions) {
                Some(self.entries@[position.linear(self.dimensions.width)].distance)
            } else {
                None::<usize>
            },
    {
        match self.entry_at(position) {
            Some(entry) => Some(entry.distance),
            None => None,
        }
    }

    /// Overwrites the tile of the in-bounds cell at `position`, leaving
    /// its search state untouched.
    pub fn set_tile_at(&mut self, position: Position, tile: Tile)
        requires
            old(self).wf(),
            position.in_bounds(old(self).dimensions),
        ensures
            final(self).wf(),
            final(self).dimensions == old(self).dimensions,
            final(self).entries@ == old(self).entries@.update(
                position.linear(final(self).dimensions.width),
                MapEntry {
                    tile,
                    ..old(self).entries@[position.linear(final(self).dimensions.width)]
                },
            ),
    {
        proof {
            crate::position::lemma_linear_round_trip(position, self.dimensions);
        }
        let index = position.to_linear(self.dimensions.width);
        self.entries[index].tile = tile;
        proof {
            lemma_wf_tiles_only(old(self).entries@, self.entries@, self.dimensions);
        }
    }

    /// Whether the cell at `position` exists and shows the given
    /// non-player terrain.
    pub fn tile_at_is(&self, position: Position, np_tile: NonPlayerTile) -> (r: bool)
        requires
            self.wf(),
        ensures
            r == (position.in_bounds(self.dimensions)
                && self.tiles()[position.linear(self.dimensions.width)] == np_tile.spec_to_tile()),
    {
        match self.tile_at(position) {
            Some(tile) => tile.matches(np_tile),
            None => false,
        }
    }

    /// Whether the cell at `position` exists and shows terrain that
    /// blocks or harms: `Acid`, `Bedrock`, `Cobblestone` or `Stone`.
    pub fn tile_at_is_obstacle(&self, position: Position) -> (r: bool)
        requires
            self.wf(),
        ensures
            r == (position.in_bounds(self.dimensions)
                && crate::tile::tile_is_obstacle(
                    self.tiles()[position.linear(self.dimensions.width)],
                )),
    {
        match self.tile_at(position) {
            Some(tile) => match tile.as_non_player() {
                Some(np) => np.is_obstacle(),
                None => false,
            },
            None => false,
        }
    }

    /// The central cell of the grid.
    pub fn center(&self) -> (r: Position)
        requires
            self.wf(),
        ensures
            r.x == self.dimensions.width / 2,
            r.y == self.dimensions.height / 2,
            r.in_bounds(self.dimensions),
    {
        Position { x: (self.dimensions.width / 2) as isize, y: (self.dimensions.height / 2) as isize }
    }
}

impl Tile {
    /// The tile an observation merge leaves in a cell: a `Fog` scan cell
    /// is no observation and keeps what was there; anything else replaces
    /// it.
    pub open spec fn merged_over(self, existing: Tile) -> Tile {
        if self is Fog {
            existing
        } else {
            self
        }
    }
}

impl Grid {
    /// Fuses a freshly observed snapshot into the grid: each scan cell
    /// that is not `Fog` unconditionally replaces the stored tile, and
    /// each `Fog` scan cell leaves the stored tile unchanged. Search
    /// state is untouched.
    pub fn merge_with(&mut self, tiles: &Vec<Tile>)
        requires
            old(self).wf(),
            tiles@.len() == old(self).entries@.len(),
        ensures
            final(self).wf(),
            final(self).dimensions == old(self).dimensions,
            final(self).entries@.len() == old(self).entries@.len(),
            forall|i: int|
                0 <= i < final(self).entries@.len() ==> final(self).entries@[i] == (MapEntry {
                    tile: tiles@[i].merged_over(old(self).entries@[i].tile),
                    ..old(self).entries@[i]
                }),
    {
        let n = self.entries.len();
        let mut i: usize = 0;
        while i < n
            invariant
                i <= n,
                n == self.entries@.len(),
                self.dimensions == old(self).dimensions,
                tiles@.len() == n,
                forall|j: int|
                    0 <= j < i ==> self.entries@[j] == (MapEntry {
                        tile: tiles@[j].merged_over(old(self).entries@[j].tile),
                        ..old(self).entries@[j]
                    }),
                forall|j: int| i <= j < n ==> self.entries@[j] == old(self).entries@[j],
            decreases n - i,
        {
            let incoming = tiles[i];
            match incoming {
                Tile::Fog => {},
                _ => {
                    self.entries[i].tile = incoming;
                },
            }
            i = i + 1;
        }
        proof {
            lemma_wf_tiles_only(old(self).entries@, self.entries@, self.dimensions);
        }
    }
}

/// Whether `position` lies in the outermost `level`-thick border ring of
/// a grid with the given dimensions.
pub open spec fn in_acid_ring(position: Position, dimensions: Dimensions, level: usize) -> bool {
    ||| position.x < level
    ||| position.y < level
    ||| position.x >= dimensions.width - level
    ||| position.y >= dimensions.height - level
}

/// The entries after a hazard paint at the given level: every border
/// ring cell's tile becomes `Acid`, everything else is untouched.
pub open spec fn acid_painted(
    entries: Seq<MapEntry>,
    dimensions: Dimensions,
    level: usize,
) -> Seq<MapEntry> {
    Seq::new(
        entries.len(),
        |i: int| MapEntry {
            tile: if in_acid_ring(pos_at(dimensions, i), dimensions, level) {
                Tile::Acid
            } else {
                entries[i].tile
            },
            ..entries[i]
        },
    )
}

impl Grid {
    /// Paints the outermost `level`-thick border ring of the grid to
    /// `Acid`, unconditionally overwriting whatever was there; every
    /// interior cell is left untouched.
    pub fn update_acid(&mut self, level: usize)
        requires
            old(self).wf(),
        ensures
            final(self).wf(),
            final(self).dimensions == old(self).dimensions,
            final(self).entries@.len() == old(self).entries@.len(),
            forall|i: int|
                0 <= i < final(self).entries@.len() ==> final(self).entries@[i] == (MapEntry {
                    tile: if in_acid_ring(pos_at(final(self).dimensions, i), final(self).dimensions, level) {
                        Tile::Acid
                    } else {
                        old(self).entries@[i].tile
                    },
                    ..old(self).entries@[i]
                }),
            final(self).entries@ == acid_painted(old(self).entries@, old(self).dimensions, level),
    {
        let width = self.dimensions.width;
        let height = self.dimensions.height;
        let n = self.entries.len();
        let mut i: usize = 0;
        while i < n
            invariant
                i <= n,
                n == self.entries@.len(),
                self.dimensions == old(self).dimensions,
                width == self.dimensions.width,
                height == self.dimensions.height,
                1 <= width,
                n == width * height,
                old(self).wf(),
                forall|j: int|
                    0 <= j < i ==> self.entries@[j] == (MapEntry {
                        tile: if in_acid_ring(pos_at(self.dimensions, j), self.dimensions, level) {
                            Tile::Acid
                        } else {
                            old(self).entries@[j].tile
                        },
                        ..old(self).entries@[j]
                    }),
                forall|j: int| i <= j < n ==> self.entries@[j] == old(self).entries@[j],
            decreases n - i,
        {
            let x = i % width;
            let y = i / width;
            proof {
                assert(y < height) by (nonlinear_arith)
                    requires
                        i < n,
                        n == width * height,
                        y == i as int / width as int,
                        1 <= width,
                ;
                assert(pos_at(self.dimensions, i as int) == Position { x: x as isize, y: y as isize });
            }
            let ring = x < level || y < level || width - x <= level || height - y <= level;
            if ring {
                self.entries[i].tile = Tile::Acid;
            }
            i = i + 1;
        }
        proof {
            lemma_wf_tiles_only(old(self).entries@, self.entries@, self.dimensions);
            assert(self.entries@ =~= acid_painted(old(self).entries@, old(self).dimensions, level));
        }
    }

    /// Paints the hazard ring for the given level; the older name of
    /// [`Grid::update_acid`], kept for callers that grew up with it.
    pub fn set_acid_level(&mut self, level: usize)
        requires
            old(self).wf(),
        ensures
            final(self).wf(),
            final(self).dimensions == old(self).dimensions,
            final(self).entries@.len() == old(self).entries@.len(),
            forall|i: int|
                0 <= i < final(self).entries@.len() ==> final(self).entries@[i] == (MapEntry {
                    tile: if in_acid_ring(pos_at(final(self).dimensions, i), final(self).dimensions, level) {
                        Tile::Acid
                    } else {
                        old(self).entries@[i].tile
                    },
                    ..old(self).entries@[i]
                }),
            final(self).entries@ == acid_painted(old(self).entries@, old(self).dimensions, level),
    {
        self.update_acid(level)
    }
}

} // verus!
