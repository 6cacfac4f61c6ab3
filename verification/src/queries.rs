use vstd::prelude::*;

use crate::direction::{direction_order, Direction};
use crate::map::{pos_at, Grid, MapEntry, Neighbour};
use crate::position::{Dimensions, Position};
use crate::tile::{NonPlayerTile, Tile};

verus! {

/// The positions, in row-major order, of the first `n` cells whose tile
/// shows the given non-player terrain.
pub open spec fn found_tiles(
    tiles: Seq<Tile>,
    dimensions: Dimensions,
    np_tile: NonPlayerTile,
    n: int,
) -> Seq<Position>
    decreases n,
{
    if n <= 0 {
        Seq::empty()
    } else {
        found_tiles(tiles, dimensions, np_tile, n - 1) + if tiles[n - 1]
            == np_tile.spec_to_tile() {
            seq![pos_at(dimensions, n - 1)]
        } else {
            Seq::empty()
        }
    }
}

/// Among the first `n` cells, the position of the first cell showing the
/// given terrain that the fill reached, with minimal fill distance;
/// `None` when no cell shows it or every cell that does is unreached.
/// A cell still at the unreached sentinel is no target: a caller could
/// never get there.
pub open spec fn nearest_found(
    entries: Seq<MapEntry>,
    dimensions: Dimensions,
    np_tile: NonPlayerTile,
    n: int,
) -> Option<Position>
    decreases n,
{
    if n <= 0 {
        None
    } else {
        let prev = nearest_found(entries, dimensions, np_tile, n - 1);
        if entries[n - 1].tile != np_tile.spec_to_tile() || entries[n - 1].distance
            >= crate::UNREACHED {
            prev
        } else {
            match prev {
                None => Some(pos_at(dimensions, n - 1)),
                Some(b) => if entries[n - 1].distance < entries[b.linear(
                    dimensions.width,
                )].distance {
                    Some(pos_at(dimensions, n - 1))
                } else {
                    prev
                },
            }
        }
    }
}

/// The neighbours of `of`, among the first `k` directions of the fixed
/// order, that are in bounds and show the given terrain.
pub open spec fn found_neighbours(
    tiles: Seq<Tile>,
    dimensions: Dimensions,
    of: Position,
    np_tile: NonPlayerTile,
    k: int,
) -> Seq<Neighbour>
    decreases k,
{
    if k <= 0 {
        Seq::empty()
    } else {
        let d = direction_order()[k - 1];
        let p = of.spec_step(d);
        found_neighbours(tiles, dimensions, of, np_tile, k - 1) + if p.in_bounds(dimensions)
            && tiles[p.linear(dimensions.width)] == np_tile.spec_to_tile() {
            seq![Neighbour { direction: d, position: p }]
        } else {
            Seq::empty()
        }
    }
}

/// The first neighbour match over a list of target terrains: targets are
/// tried in the order given, and for each target the four directions in
/// their fixed order; the first hit wins.
pub open spec fn first_neighbour(
    tiles: Seq<Tile>,
    dimensions: Dimensions,
    of: Position,
    np_tiles: Seq<NonPlayerTile>,
    j: int,
) -> Option<Neighbour>
    decreases np_tiles.len() - j,
{
    if j < 0 || j >= np_tiles.len() {
        None
    } else {
        let here = found_neighbours(tiles, dimensions, of, np_tiles[j], 4);
        if here.len() > 0 {
            Some(here[0])
        } else {
            first_neighbour(tiles, dimensions, of, np_tiles, j + 1)
        }
    }
}

/// What the nearest-tile search means: a `Some` answer is an in-bounds,
/// reached cell that shows the terrain and whose fill distance no other
/// showing cell beats; a `None` answer means every cell showing the
/// terrain — if any — is still at the unreached sentinel.
pub proof fn lemma_nearest_found_minimal(
    entries: Seq<MapEntry>,
    dimensions: Dimensions,
    np_tile: NonPlayerTile,
    n: int,
)
    requires
        dimensions.valid(),
        entries.len() == dimensions.width * dimensions.height,
        0 <= n <= entries.len(),
    ensures
        match nearest_found(entries, dimensions, np_tile, n) {
            Some(b) => {
                &&& b.in_bounds(dimensions)
                &&& entries[b.linear(dimensions.width)].tile == np_tile.spec_to_tile()
                &&& entries[b.linear(dimensions.width)].distance < crate::UNREACHED
                &&& forall|i: int|
                    0 <= i < n && (#[trigger] entries[i]).tile == np_tile.spec_to_tile()
                        && entries[i].distance < crate::UNREACHED ==> entries[b.linear(
                        dimensions.width,
                    )].distance <= entries[i].distance
            },
            None => forall|i: int|
                0 <= i < n ==> (#[trigger] entries[i]).tile != np_tile.spec_to_tile()
                    || entries[i].distance >= crate::UNREACHED,
        },
    decreases n,
{
    if n > 0 {
        lemma_nearest_found_minimal(entries, dimensions, np_tile, n - 1);
        crate::flood_fill::lemma_pos_at_linear(dimensions, n - 1);
        match nearest_found(entries, dimensions, np_tile, n - 1) {
            None => {},
            Some(b) => {
                crate::position::lemma_linear_round_trip(b, dimensions);
            },
        }
    }
}

impl Grid {
    /// The four neighbouring positions of `of`, each with the direction
    /// that leads to it, in the fixed direction order.
    pub fn neighbours(&self, of: Position) -> (r: Vec<Neighbour>)
        requires
            isize::MIN < of.x < isize::MAX,
            isize::MIN < of.y < isize::MAX,
        ensures
            r@.len() == 4,
            forall|k: int|
                0 <= k < 4 ==> r@[k] == (Neighbour {
                    direction: direction_order()[k],
                    position: of.spec_step(direction_order()[k]),
                }),
    {
        let mut r: Vec<Neighbour> = Vec::new();
        r.push(Neighbour { direction: Direction::Right, position: of.step(Direction::Right) });
        r.push(Neighbour { direction: Direction::Up, position: of.step(Direction::Up) });
        r.push(Neighbour { direction: Direction::Left, position: of.step(Direction::Left) });
        r.push(Neighbour { direction: Direction::Down, position: of.step(Direction::Down) });
        r
    }

    /// Every position whose cell shows the given terrain, in row-major
    /// order.
    pub fn find_tiles(&self, np_tile: NonPlayerTile) -> (r: Vec<Position>)
        requires
            self.wf(),
        ensures
            r@ == found_tiles(self.tiles(), self.dimensions, np_tile, self.entries@.len() as int),
    {
        let width = self.dimensions.width;
        let height = self.dimensions.height;
        let n = self.entries.len();
        let mut r: Vec<Position> = Vec::new();
        let mut i: usize = 0;
        while i < n
            invariant
                i <= n,
                self.wf(),
                n == self.entries@.len(),
                width == self.dimensions.width,
                height == self.dimensions.height,
                r@ == found_tiles(self.tiles(), self.dimensions, np_tile, i as int),
            decreases n - i,
        {
            proof {
                assert((i as int) / (width as int) < height) by (nonlinear_arith)
                    requires
                        i < n,
                        n == width * height,
                        1 <= width,
                ;
                assert(self.tiles()[i as int] == self.entries@[i as int].tile);
            }
            let matches = self.entries[i].tile.matches(np_tile);
            if matches {
                let position = Position::from_linear(i, width);
                r.push(position);
                proof {
                    assert(position == pos_at(self.dimensions, i as int));
                }
            }
            i = i + 1;
            proof {
                assert(r@ =~= found_tiles(self.tiles(), self.dimensions, np_tile, i as int));
            }
        }
        r
    }

    /// The position of the first cell, in row-major order, that shows
    /// the given terrain, was reached by the fill, and has minimal fill
    /// distance; `None` when no cell shows it or none showing it is
    /// reachable.
    pub fn nearest_tile(&self, np_tile: NonPlayerTile) -> (r: Option<Position>)
        requires
            self.wf(),
        ensures
            r == nearest_found(
                self.entries@,
                self.dimensions,
                np_tile,
                self.entries@.len() as int,
            ),
    {
        let width = self.dimensions.width;
        let height = self.dimensions.height;
        let n = self.entries.len();
        let mut best: Option<Position> = None;
        let mut best_distance: usize = 0;
        let mut i: usize = 0;
        while i < n
            invariant
                i <= n,
                self.wf(),
                n == self.entries@.len(),
                width == self.dimensions.width,
                height == self.dimensions.height,
                best == nearest_found(self.entries@, self.dimensions, np_tile, i as int),
                match best {
                    None => true,
                    Some(b) => b.in_bounds(self.dimensions) && best_distance == self.entries@[
                        b.linear(self.dimensions.width)
                    ].distance,
                },
            decreases n - i,
        {
            proof {
                assert((i as int) / (width as int) < height) by (nonlinear_arith)
                    requires
                        i < n,
                        n == width * height,
                        1 <= width,
                ;
            }
            let matches = self.entries[i].tile.matches(np_tile);
            if matches && self.entries[i].distance < crate::UNREACHED {
                let distance = self.entries[i].distance;
                let replace = match best {
                    None => true,
                    Some(_) => distance < best_distance,
                };
                if replace {
                    let position = Position::from_linear(i, width);
                    proof {
                        assert(position == pos_at(self.dimensions, i as int));
                        if let Some(b) = best {
                            crate::position::lemma_linear_round_trip(b, self.dimensions);
                        }
                    }
                    best = Some(position);
                    best_distance = distance;
                }
            }
            i = i + 1;
            proof {
                if let Some(b) = best {
                    crate::position::lemma_linear_round_trip(b, self.dimensions);
                }
            }
        }
        best
    }

    /// The nearest reachable cell showing the given terrain; the older
    /// name of [`Grid::nearest_tile`], kept for callers that grew up
    /// with it.
    pub fn closest_tile(&self, target: NonPlayerTile) -> (r: Option<Position>)
        requires
            self.wf(),
        ensures
            r == nearest_found(
                self.entries@,
                self.dimensions,
                target,
                self.entries@.len() as int,
            ),
    {
        self.nearest_tile(target)
    }

    /// Every neighbour of `of` that is in bounds and shows the given
    /// terrain, in the fixed direction order.
    pub fn find_neighbours(&self, of: Position, target: NonPlayerTile) -> (r: Vec<Neighbour>)
        requires
            self.wf(),
            isize::MIN < of.x < isize::MAX,
            isize::MIN < of.y < isize::MAX,
        ensures
            r@ == found_neighbours(self.tiles(), self.dimensions, of, target, 4),
    {
        let neighbours = self.neighbours(of);
        let mut r: Vec<Neighbour> = Vec::new();
        let mut k: usize = 0;
        while k < 4
            invariant
                k <= 4,
                self.wf(),
                neighbours@.len() == 4,
                forall|j: int|
                    0 <= j < 4 ==> neighbours@[j] == (Neighbour {
                        direction: direction_order()[j],
                        position: of.spec_step(direction_order()[j]),
                    }),
                r@ == found_neighbours(self.tiles(), self.dimensions, of, target, k as int),
            decreases 4 - k,
        {
            let nb = neighbours[k];
            if self.tile_at_is(nb.position, target) {
                r.push(nb);
            }
            k = k + 1;
            proof {
                assert(r@ =~= found_neighbours(self.tiles(), self.dimensions, of, target, k as int));
            }
        }
        r
    }

    /// The first neighbour of `of` showing any of the given terrains;
    /// earlier entries of `np_tiles` take priority over closer matches.
    pub fn find_neighbour(&self, of: Position, np_tiles: &Vec<NonPlayerTile>) -> (r: Option<
        Neighbour,
    >)
        requires
            self.wf(),
            isize::MIN < of.x < isize::MAX,
            isize::MIN < of.y < isize::MAX,
        ensures
            r == first_neighbour(self.tiles(), self.dimensions, of, np_tiles@, 0),
    {
        let mut j: usize = 0;
        let n = np_tiles.len();
        while j < n
            invariant
                j <= n,
                self.wf(),
                n == np_tiles@.len(),
                isize::MIN < of.x < isize::MAX,
                isize::MIN < of.y < isize::MAX,
                first_neighbour(self.tiles(), self.dimensions, of, np_tiles@, 0)
                    == first_neighbour(self.tiles(), self.dimensions, of, np_tiles@, j as int),
            decreases n - j,
        {
            let matches = self.find_neighbours(of, np_tiles[j]);
            if matches.len() > 0 {
                return Some(matches[0]);
            }
            j = j + 1;
        }
        None
    }
}

} // verus!
