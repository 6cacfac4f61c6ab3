use vstd::prelude::*;

use crate::direction::Direction;
use crate::map::{entry_wf, pos_at, Grid, MapEntry, ParentInfo};
use crate::position::{Dimensions, Position};
use crate::tile::{tile_needs_mining, tile_viable, tile_weight, Tile};
use crate::UNREACHED;

verus! {

/// Cost of entering a tile that must be mined when the move would be the
/// very first move out of the source: deliberately prohibitive, because
/// the first action of a turn cannot both move and clear an obstacle.
pub const MINE_FIRST_MOVE_COST: usize = 1000;

/// Cost of entering a tile that must be mined when the move lands exactly
/// on a turn boundary: mining consumes the whole turn regardless of the
/// distance it stands for, so the 1 is a tie-breaking unit, not a real
/// distance.
pub const MINE_AT_BOUNDARY_COST: usize = 1;

/// The whole state of a fill in progress: every cell's search state plus,
/// per cell, whether it has been finalized (removed from the frontier).
pub struct FillState {
    pub entries: Seq<MapEntry>,
    pub visited: Seq<bool>,
}

/// Every cell reset to unreached with no parent, keeping its tile.
pub open spec fn fill_reset(entries: Seq<MapEntry>) -> Seq<MapEntry> {
    entries.map_values(
        |e: MapEntry| MapEntry { tile: e.tile, distance: UNREACHED, parent: None },
    )
}

/// The state a fill starts from: everything reset, nothing visited, and
/// the source cell at distance 0.
pub open spec fn fill_init(entries: Seq<MapEntry>, src: int) -> FillState {
    let reset = fill_reset(entries);
    FillState {
        entries: reset.update(src, MapEntry { distance: 0, ..reset[src] }),
        visited: Seq::new(entries.len(), |i: int| false),
    }
}

/// Linear scan for the unvisited cell of minimal distance, starting at
/// index `i` with `best` the best index seen so far (`-1` for none yet).
/// Ties keep the earlier index.
pub open spec fn min_unvisited_from(
    entries: Seq<MapEntry>,
    visited: Seq<bool>,
    i: int,
    best: int,
) -> int
    decreases entries.len() - i,
{
    if i < 0 || i >= entries.len() {
        best
    } else {
        let better = !visited[i] && (best == -1 || entries[i].distance < entries[best].distance);
        min_unvisited_from(entries, visited, i + 1, if better { i } else { best })
    }
}

/// The unvisited cell of minimal distance (first such index on ties), or
/// `-1` if every cell has been visited.
pub open spec fn min_unvisited(entries: Seq<MapEntry>, visited: Seq<bool>) -> int {
    min_unvisited_from(entries, visited, 0, -1)
}

/// The cost of moving into a viable tile, given whether the move is the
/// very first out of the source and the cycle position the move lands at.
pub open spec fn step_cost(tile: Tile, first_move: bool, turn_move_index: int) -> usize {
    if tile_needs_mining(tile) && first_move {
        MINE_FIRST_MOVE_COST
    } else if tile_needs_mining(tile) && turn_move_index == 0 {
        MINE_AT_BOUNDARY_COST
    } else {
        tile_weight(tile)
    }
}

/// The cycle position of the next move taken out of a cell: one past the
/// cell's own position in the cycle, or 0 when the cell is the source.
pub open spec fn next_turn_move_index(u_entry: MapEntry, wheel_level: int) -> int {
    match u_entry.parent {
        None => 0,
        Some(p) => (p.turn_move_index + 1) % wheel_level,
    }
}

/// One relaxation: from the finalized cell with linear index `u`, try to
/// improve its neighbour one step in direction `d`. The neighbour is
/// updated only if it is in bounds, still unvisited, viable, and the
/// candidate total is strictly smaller than its current distance.
pub open spec fn relax_one(
    s: FillState,
    dimensions: Dimensions,
    u: int,
    wheel_level: int,
    d: Direction,
) -> FillState {
    let upos = pos_at(dimensions, u);
    let vpos = upos.spec_step(d);
    if !vpos.in_bounds(dimensions) {
        s
    } else {
        let v = vpos.linear(dimensions.width);
        if s.visited[v] {
            s
        } else {
            let ue = s.entries[u];
            let ve = s.entries[v];
            if !tile_viable(ve.tile) {
                s
            } else {
                let first_move = ue.parent is None;
                let tmi = next_turn_move_index(ue, wheel_level);
                let alt = ue.distance + step_cost(ve.tile, first_move, tmi);
                if alt < ve.distance {
                    FillState {
                        entries: s.entries.update(
                            v,
                            MapEntry {
                                tile: ve.tile,
                                distance: alt as usize,
                                parent: Some(
                                    ParentInfo {
                                        direction: d,
                                        location: upos,
                                        requires_mining: tile_needs_mining(ve.tile),
                                        turn_move_index: if tile_needs_mining(ve.tile) {
                                            0
                                        } else {
                                            tmi as usize
                                        },
                                    },
                                ),
                            },
                        ),
                        visited: s.visited,
                    }
                } else {
                    s
                }
            }
        }
    }
}

/// One round of the fill: finalize the unvisited cell of minimal
/// distance, then relax its four neighbours in the fixed direction
/// order. A round with nothing left unvisited changes nothing.
pub open spec fn fill_round(s: FillState, dimensions: Dimensions, wheel_level: int) -> FillState {
    let u = min_unvisited(s.entries, s.visited);
    if u == -1 {
        s
    } else {
        let s1 = FillState { entries: s.entries, visited: s.visited.update(u, true) };
        let s2 = relax_one(s1, dimensions, u, wheel_level, Direction::Right);
        let s3 = relax_one(s2, dimensions, u, wheel_level, Direction::Up);
        let s4 = relax_one(s3, dimensions, u, wheel_level, Direction::Left);
        relax_one(s4, dimensions, u, wheel_level, Direction::Down)
    }
}

/// `k` rounds of the fill.
pub open spec fn fill_rounds(
    s: FillState,
    dimensions: Dimensions,
    wheel_level: int,
    k: nat,
) -> FillState
    decreases k,
{
    if k == 0 {
        s
    } else {
        fill_round(fill_rounds(s, dimensions, wheel_level, (k - 1) as nat), dimensions, wheel_level)
    }
}

/// The complete fill: reset, seed the source at distance 0, then run one
/// round per cell. This is the whole observable effect of a fill on the
/// grid's entries; it depends only on the tiles, the source and the
/// wheel level.
pub open spec fn spec_fill(
    entries: Seq<MapEntry>,
    dimensions: Dimensions,
    source: Position,
    wheel_level: int,
) -> Seq<MapEntry> {
    fill_rounds(
        fill_init(entries, source.linear(dimensions.width)),
        dimensions,
        wheel_level,
        entries.len() as nat,
    ).entries
}

/// The per-cell invariant a fill maintains, over and above
/// [`entry_wf`]: a parented cell's distance is final only through a
/// *visited* parent, and its stored cycle position stays below the wheel
/// level.
pub open spec fn entry_inv(s: FillState, dimensions: Dimensions, wheel_level: int, i: int) -> bool {
    match s.entries[i].parent {
        None => true,
        Some(p) => {
            &&& s.entries[i].distance < UNREACHED
            &&& p.location.in_bounds(dimensions)
            &&& p.location.linear(dimensions.width) != i
            &&& s.visited[p.location.linear(dimensions.width)]
            &&& s.entries[p.location.linear(dimensions.width)].distance < s.entries[i].distance
            &&& p.location.spec_step(p.direction) == pos_at(dimensions, i)
            &&& p.turn_move_index < wheel_level
        },
    }
}

/// The global invariant of a fill in progress, from the seeded initial
/// state through every round: the source pinned at distance 0 with no
/// parent, every other parentless cell unreached, every distance at most
/// the sentinel, and every back-pointer sound.
pub open spec fn state_inv(
    s: FillState,
    dimensions: Dimensions,
    src: int,
    wheel_level: int,
) -> bool {
    &&& dimensions.valid()
    &&& s.entries.len() == dimensions.width * dimensions.height
    &&& s.visited.len() == s.entries.len()
    &&& 0 <= src < s.entries.len()
    &&& s.entries[src].distance == 0
    &&& s.entries[src].parent is None
    &&& forall|i: int| 0 <= i < s.entries.len() ==> (#[trigger] s.entries[i].distance) <= UNREACHED
    &&& forall|i: int|
        0 <= i < s.entries.len() && i != src && (#[trigger] s.entries[i].parent) is None
            ==> s.entries[i].distance == UNREACHED
    &&& forall|i: int| 0 <= i < s.entries.len() ==> entry_inv(s, dimensions, wheel_level, i)
}

/// For an index inside the grid, the position it decodes to is in
/// bounds and encodes back to the same index.
pub proof fn lemma_pos_at_linear(dimensions: Dimensions, i: int)
    requires
        dimensions.valid(),
        0 <= i < dimensions.width * dimensions.height,
    ensures
        pos_at(dimensions, i).in_bounds(dimensions),
        pos_at(dimensions, i).linear(dimensions.width) == i,
        0 <= i % (dimensions.width as int) < dimensions.width,
        0 <= i / (dimensions.width as int) < dimensions.height,
{
    let w = dimensions.width as int;
    let h = dimensions.height as int;
    vstd::arithmetic::div_mod::lemma_fundamental_div_mod(i, w);
    assert(0 <= i % w < w) by (nonlinear_arith)
        requires
            1 <= w,
            0 <= i,
    ;
    assert(0 <= i / w < h) by (nonlinear_arith)
        requires
            1 <= w,
            0 <= i < w * h,
    ;
    assert((i / w) * w + i % w == i) by (nonlinear_arith)
        requires
            i == w * (i / w) + i % w,
    ;
}

/// What the scan for the minimum unvisited cell returns: `-1` only when
/// it never saw an unvisited cell past `i` and held none before; any
/// other return is an unvisited index.
pub proof fn lemma_min_unvisited_from_range(
    entries: Seq<MapEntry>,
    visited: Seq<bool>,
    i: int,
    best: int,
)
    requires
        visited.len() == entries.len(),
        best == -1 || (0 <= best < entries.len() && !visited[best]),
    ensures
        ({
            let m = min_unvisited_from(entries, visited, i, best);
            m == -1 || (0 <= m < entries.len() && !visited[m])
        }),
    decreases entries.len() - i,
{
    if i < 0 || i >= entries.len() {
    } else {
        let better = !visited[i] && (best == -1 || entries[i].distance < entries[best].distance);
        lemma_min_unvisited_from_range(entries, visited, i + 1, if better {
            i
        } else {
            best
        });
    }
}

/// The seeded initial state of a fill satisfies the fill invariant.
pub proof fn lemma_fill_init_inv(
    entries: Seq<MapEntry>,
    dimensions: Dimensions,
    src: int,
    wheel_level: int,
)
    requires
        dimensions.valid(),
        entries.len() == dimensions.width * dimensions.height,
        0 <= src < entries.len(),
        wheel_level >= 1,
    ensures
        state_inv(fill_init(entries, src), dimensions, src, wheel_level),
        fill_init(entries, src).entries.len() == entries.len(),
        forall|i: int|
            0 <= i < entries.len() ==> (#[trigger] fill_init(entries, src).entries[i].tile)
                == entries[i].tile,
{
    let s = fill_init(entries, src);
    assert forall|i: int| 0 <= i < s.entries.len() implies entry_inv(
        s,
        dimensions,
        wheel_level,
        i,
    ) by {
        assert(s.entries[i].parent is None);
    }
}


/// Relaxing one neighbour of a finalized cell preserves the fill
/// invariant; it never touches a visited cell's entry, keeps every
/// tile and the visited set, and never increases a distance.
pub proof fn lemma_relax_one_inv(
    s: FillState,
    dimensions: Dimensions,
    src: int,
    wheel_level: int,
    u: int,
    d: Direction,
)
    requires
        state_inv(s, dimensions, src, wheel_level),
        wheel_level >= 1,
        0 <= u < s.entries.len(),
        s.visited[u],
    ensures
        ({
            let t = relax_one(s, dimensions, u, wheel_level, d);
            &&& state_inv(t, dimensions, src, wheel_level)
            &&& t.visited == s.visited
            &&& t.entries.len() == s.entries.len()
            &&& forall|i: int|
                0 <= i < s.entries.len() ==> (#[trigger] t.entries[i].tile) == s.entries[i].tile
            &&& forall|i: int|
                0 <= i < s.entries.len() ==> (#[trigger] t.entries[i].distance)
                    <= s.entries[i].distance
            &&& forall|i: int|
                0 <= i < s.entries.len() && s.visited[i] ==> (#[trigger] t.entries[i])
                    == s.entries[i]
        }),
{
    let t = relax_one(s, dimensions, u, wheel_level, d);
    lemma_pos_at_linear(dimensions, u);
    let upos = pos_at(dimensions, u);
    let vpos = upos.spec_step(d);
    if vpos.in_bounds(dimensions) {
        crate::position::lemma_linear_round_trip(vpos, dimensions);
        let v = vpos.linear(dimensions.width);
        if !s.visited[v] {
            let ue = s.entries[u];
            let ve = s.entries[v];
            if tile_viable(ve.tile) {
                let first_move = ue.parent is None;
                let tmi = next_turn_move_index(ue, wheel_level);
                assert(entry_inv(s, dimensions, wheel_level, u));
                if ue.parent is Some {
                    let p0 = ue.parent->0;
                    assert(0 <= (p0.turn_move_index + 1) % wheel_level < wheel_level)
                        by (nonlinear_arith)
                        requires
                            wheel_level >= 1,
                            p0.turn_move_index >= 0,
                    ;
                }
                assert(0 <= tmi < wheel_level);
                assert(step_cost(ve.tile, first_move, tmi) >= 1);
                let alt = ue.distance + step_cost(ve.tile, first_move, tmi);
                if alt < ve.distance {
                    assert(v != u);
                    assert(alt >= 1);
                    assert(v != src) by {
                        if v == src {
                            assert(s.entries[src].distance == 0);
                            assert(alt < 0);
                        }
                    }
                    assert(pos_at(dimensions, v) == vpos);
                    assert forall|i: int| 0 <= i < t.entries.len() implies entry_inv(
                        t,
                        dimensions,
                        wheel_level,
                        i,
                    ) by {
                        assert(entry_inv(s, dimensions, wheel_level, i));
                        if i == v {
                            assert(t.entries[v].parent == Some(
                                ParentInfo {
                                    direction: d,
                                    location: upos,
                                    requires_mining: tile_needs_mining(ve.tile),
                                    turn_move_index: if tile_needs_mining(ve.tile) {
                                        0
                                    } else {
                                        tmi as usize
                                    },
                                },
                            ));
                            assert(t.entries[u] == s.entries[u]);
                        } else {
                            match s.entries[i].parent {
                                None => {},
                                Some(p) => {
                                    crate::position::lemma_linear_round_trip(
                                        p.location,
                                        dimensions,
                                    );
                                    assert(s.visited[p.location.linear(dimensions.width)]);
                                    assert(p.location.linear(dimensions.width) != v);
                                    assert(t.entries[p.location.linear(dimensions.width)]
                                        == s.entries[p.location.linear(dimensions.width)]);
                                },
                            }
                        }
                    }
                }
            }
        }
    }
}

/// One round of the fill preserves the fill invariant and every tile.
pub proof fn lemma_fill_round_inv(
    s: FillState,
    dimensions: Dimensions,
    src: int,
    wheel_level: int,
)
    requires
        state_inv(s, dimensions, src, wheel_level),
        wheel_level >= 1,
    ensures
        ({
            let t = fill_round(s, dimensions, wheel_level);
            &&& state_inv(t, dimensions, src, wheel_level)
            &&& t.entries.len() == s.entries.len()
            &&& forall|i: int|
                0 <= i < s.entries.len() ==> (#[trigger] t.entries[i].tile) == s.entries[i].tile
        }),
{
    let u = min_unvisited(s.entries, s.visited);
    lemma_min_unvisited_from_range(s.entries, s.visited, 0, -1);
    if u != -1 {
        let s1 = FillState { entries: s.entries, visited: s.visited.update(u, true) };
        assert forall|i: int| 0 <= i < s1.entries.len() implies entry_inv(
            s1,
            dimensions,
            wheel_level,
            i,
        ) by {
            assert(entry_inv(s, dimensions, wheel_level, i));
            match s.entries[i].parent {
                None => {},
                Some(p) => {
                    crate::position::lemma_linear_round_trip(p.location, dimensions);
                    assert(s1.visited[p.location.linear(dimensions.width)]);
                },
            }
        }
        assert(state_inv(s1, dimensions, src, wheel_level));
        let s2 = relax_one(s1, dimensions, u, wheel_level, Direction::Right);
        lemma_relax_one_inv(s1, dimensions, src, wheel_level, u, Direction::Right);
        let s3 = relax_one(s2, dimensions, u, wheel_level, Direction::Up);
        lemma_relax_one_inv(s2, dimensions, src, wheel_level, u, Direction::Up);
        let s4 = relax_one(s3, dimensions, u, wheel_level, Direction::Left);
        lemma_relax_one_inv(s3, dimensions, src, wheel_level, u, Direction::Left);
        lemma_relax_one_inv(s4, dimensions, src, wheel_level, u, Direction::Down);
    }
}

/// Any number of rounds preserves the fill invariant and every tile.
pub proof fn lemma_fill_rounds_inv(
    s: FillState,
    dimensions: Dimensions,
    src: int,
    wheel_level: int,
    k: nat,
)
    requires
        state_inv(s, dimensions, src, wheel_level),
        wheel_level >= 1,
    ensures
        ({
            let t = fill_rounds(s, dimensions, wheel_level, k);
            &&& state_inv(t, dimensions, src, wheel_level)
            &&& t.entries.len() == s.entries.len()
            &&& forall|i: int|
                0 <= i < s.entries.len() ==> (#[trigger] t.entries[i].tile) == s.entries[i].tile
        }),
    decreases k,
{
    if k > 0 {
        lemma_fill_rounds_inv(s, dimensions, src, wheel_level, (k - 1) as nat);
        lemma_fill_round_inv(fill_rounds(s, dimensions, wheel_level, (k - 1) as nat), dimensions, src, wheel_level);
    }
}


/// Marking one more cell visited preserves the fill invariant.
pub proof fn lemma_mark_visited_inv(
    s: FillState,
    dimensions: Dimensions,
    src: int,
    wheel_level: int,
    u: int,
)
    requires
        state_inv(s, dimensions, src, wheel_level),
        0 <= u < s.entries.len(),
    ensures
        state_inv(
            FillState { entries: s.entries, visited: s.visited.update(u, true) },
            dimensions,
            src,
            wheel_level,
        ),
{
    let s1 = FillState { entries: s.entries, visited: s.visited.update(u, true) };
    assert forall|i: int| 0 <= i < s1.entries.len() implies entry_inv(
        s1,
        dimensions,
        wheel_level,
        i,
    ) by {
        assert(entry_inv(s, dimensions, wheel_level, i));
        match s.entries[i].parent {
            None => {},
            Some(p) => {
                crate::position::lemma_linear_round_trip(p.location, dimensions);
                assert(s1.visited[p.location.linear(dimensions.width)]);
            },
        }
    }
}

/// A fill reads nothing of a cell but its tile: two entry sequences with
/// the same tiles fill identically.
pub proof fn lemma_fill_depends_only_on_tiles(
    a: Seq<MapEntry>,
    b: Seq<MapEntry>,
    dimensions: Dimensions,
    source: Position,
    wheel_level: int,
)
    requires
        a.len() == b.len(),
        forall|i: int| 0 <= i < a.len() ==> (#[trigger] a[i].tile) == b[i].tile,
    ensures
        spec_fill(a, dimensions, source, wheel_level) == spec_fill(b, dimensions, source, wheel_level),
{
    assert(fill_reset(a) =~= fill_reset(b));
    let src = source.linear(dimensions.width);
    assert(fill_init(a, src).entries =~= fill_init(b, src).entries);
    assert(fill_init(a, src).visited =~= fill_init(b, src).visited);
    assert(fill_init(a, src) == fill_init(b, src));
}

impl Grid {
    /// What a completed fill guarantees about the grid, over and above
    /// [`Grid::wf`]: the source cell sits at distance 0 with no parent,
    /// and every other parentless cell is unreached.
    pub open spec fn fill_sound(self, source: Position) -> bool {
        let src = source.linear(self.dimensions.width);
        &&& source.in_bounds(self.dimensions)
        &&& self.entries@[src].distance == 0
        &&& self.entries@[src].parent is None
        &&& forall|i: int|
            0 <= i < self.entries@.len() && i != src && (#[trigger] self.entries@[i].parent)
                is None ==> self.entries@[i].distance == UNREACHED
    }

    /// Relaxes the neighbour of the finalized cell `u` one step in
    /// direction `d`, exactly as [`relax_one`] describes.
    fn relax_step(
        &mut self,
        visited: &Vec<bool>,
        u: usize,
        d: Direction,
        wheel_level: usize,
        Ghost(src): Ghost<int>,
    )
        requires
            state_inv(
                FillState { entries: old(self).entries@, visited: visited@ },
                old(self).dimensions,
                src,
                wheel_level as int,
            ),
            wheel_level >= 1,
            u < old(self).entries@.len(),
            visited@[u as int],
            old(self).entries@.len() == visited@.len(),
        ensures
            final(self).dimensions == old(self).dimensions,
            final(self).entries@ == relax_one(
                FillState { entries: old(self).entries@, visited: visited@ },
                old(self).dimensions,
                u as int,
                wheel_level as int,
                d,
            ).entries,
    {
        let ghost s = FillState { entries: self.entries@, visited: visited@ };
        let ghost dims = self.dimensions;
        let width = self.dimensions.width;
        proof {
            lemma_pos_at_linear(dims, u as int);
        }
        let upos = Position::from_linear(u, width);
        proof {
            assert(upos == pos_at(dims, u as int));
        }
        let vpos = upos.step(d);
        if vpos.is_within_bounds(self.dimensions) {
            proof {
                crate::position::lemma_linear_round_trip(vpos, dims);
            }
            let v = vpos.to_linear(width);
            if !visited[v] {
                let ve = self.entries[v];
                match ve.tile.as_viable() {
                    None => {},
                    Some(viable) => {
                        let ue = self.entries[u];
                        let first_move = ue.parent.is_none();
                        proof {
                            assert(entry_inv(s, dims, wheel_level as int, u as int));
                        }
                        let tmi: usize = match ue.parent {
                            None => 0,
                            Some(p) => (p.turn_move_index + 1) % wheel_level,
                        };
                        proof {
                            assert(tmi == next_turn_move_index(ue, wheel_level as int));
                        }
                        let requires_mining = viable.requires_mining();
                        let cost: usize = if requires_mining && first_move {
                            MINE_FIRST_MOVE_COST
                        } else if requires_mining && tmi == 0 {
                            MINE_AT_BOUNDARY_COST
                        } else {
                            viable.weight()
                        };
                        proof {
                            assert(cost == step_cost(ve.tile, first_move, tmi as int));
                            assert(cost <= MINE_FIRST_MOVE_COST);
                            assert(ue.distance <= UNREACHED);
                        }
                        let alt = ue.distance + cost;
                        if alt < ve.distance {
                            self.entries[v] = MapEntry {
                                tile: ve.tile,
                                distance: alt,
                                parent: Some(
                                    ParentInfo {
                                        direction: d,
                                        location: upos,
                                        requires_mining,
                                        turn_move_index: if requires_mining {
                                            0
                                        } else {
                                            tmi
                                        },
                                    },
                                ),
                            };
                        }
                    },
                }
            }
        }
    }

    /// Recomputes the whole shortest-path tree from `source`: every cell
    /// is reset (keeping its tile), the source is seeded at distance 0,
    /// and rounds of minimum-selection and relaxation run until the
    /// frontier is exhausted. The result is exactly [`spec_fill`] of the
    /// previous entries, so it depends only on the tiles, the source and
    /// the wheel level.
    pub fn floodfill(&mut self, source: Position, wheel_level: usize)
        requires
            old(self).wf(),
            source.in_bounds(old(self).dimensions),
            wheel_level >= 1,
        ensures
            final(self).wf(),
            final(self).dimensions == old(self).dimensions,
            final(self).entries@ == spec_fill(
                old(self).entries@,
                old(self).dimensions,
                source,
                wheel_level as int,
            ),
            final(self).tiles() == old(self).tiles(),
            final(self).fill_sound(source),
    {
        let ghost dims = self.dimensions;
        let width = self.dimensions.width;
        let n = self.entries.len();

        let mut i: usize = 0;
        while i < n
            invariant
                i <= n,
                n == self.entries@.len(),
                n == old(self).entries@.len(),
                self.dimensions == old(self).dimensions,
                forall|j: int| 0 <= j < i ==> self.entries@[j] == fill_reset(old(self).entries@)[j],
                forall|j: int| i <= j < n ==> self.entries@[j] == old(self).entries@[j],
            decreases n - i,
        {
            let tile = self.entries[i].tile;
            self.entries[i] = MapEntry { tile, distance: UNREACHED, parent: None };
            proof {
                assert(fill_reset(old(self).entries@)[i as int] == MapEntry {
                    tile: old(self).entries@[i as int].tile,
                    distance: UNREACHED,
                    parent: None::<ParentInfo>,
                });
            }
            i = i + 1;
        }

        proof {
            crate::position::lemma_linear_round_trip(source, dims);
        }
        let src = source.to_linear(width);
        self.entries[src].distance = 0;

        let mut visited: Vec<bool> = Vec::new();
        let mut i: usize = 0;
        while i < n
            invariant
                i <= n,
                visited@.len() == i,
                forall|j: int| 0 <= j < i ==> !visited@[j],
            decreases n - i,
        {
            visited.push(false);
            i = i + 1;
        }

        let ghost s0 = fill_init(old(self).entries@, src as int);
        proof {
            assert(self.entries@ =~= s0.entries);
            assert(visited@ =~= s0.visited);
            lemma_fill_init_inv(old(self).entries@, dims, src as int, wheel_level as int);
        }

        let mut round: usize = 0;
        while round < n
            invariant
                round <= n,
                n == self.entries@.len(),
                n == visited@.len(),
                src < n,
                wheel_level >= 1,
                self.dimensions == old(self).dimensions,
                dims == old(self).dimensions,
                s0 == fill_init(old(self).entries@, src as int),
                (FillState { entries: self.entries@, visited: visited@ }) == fill_rounds(
                    s0,
                    old(self).dimensions,
                    wheel_level as int,
                    round as nat,
                ),
                state_inv(
                    FillState { entries: self.entries@, visited: visited@ },
                    old(self).dimensions,
                    src as int,
                    wheel_level as int,
                ),
            decreases n - round,
        {
            let ghost s_before = FillState { entries: self.entries@, visited: visited@ };
            let mut best: usize = n;
            let mut j: usize = 0;
            while j < n
                invariant
                    j <= n,
                    n == self.entries@.len(),
                    n == visited@.len(),
                    best == n || (best < n && !visited@[best as int]),
                    min_unvisited(self.entries@, visited@) == min_unvisited_from(
                        self.entries@,
                        visited@,
                        j as int,
                        if best == n {
                            -1
                        } else {
                            best as int
                        },
                    ),
                decreases n - j,
            {
                let better = !visited[j] && (best == n || self.entries[j].distance
                    < self.entries[best].distance);
                if better {
                    best = j;
                }
                j = j + 1;
            }
            if best < n {
                proof {
                    assert(min_unvisited(s_before.entries, s_before.visited) == best as int);
                }
                visited[best] = true;
                let ghost s1 = FillState { entries: self.entries@, visited: visited@ };
                proof {
                    assert(s1.visited =~= s_before.visited.update(best as int, true));
                    lemma_mark_visited_inv(
                        s_before,
                        dims,
                        src as int,
                        wheel_level as int,
                        best as int,
                    );
                    assert(state_inv(s1, dims, src as int, wheel_level as int));
                }
                self.relax_step(&visited, best, Direction::Right, wheel_level, Ghost(src as int));
                let ghost s2 = relax_one(s1, dims, best as int, wheel_level as int, Direction::Right);
                proof {
                    lemma_relax_one_inv(s1, dims, src as int, wheel_level as int, best as int, Direction::Right);
                    assert(FillState { entries: self.entries@, visited: visited@ } == s2);
                }
                self.relax_step(&visited, best, Direction::Up, wheel_level, Ghost(src as int));
                let ghost s3 = relax_one(s2, dims, best as int, wheel_level as int, Direction::Up);
                proof {
                    lemma_relax_one_inv(s2, dims, src as int, wheel_level as int, best as int, Direction::Up);
                    assert(FillState { entries: self.entries@, visited: visited@ } == s3);
                }
                self.relax_step(&visited, best, Direction::Left, wheel_level, Ghost(src as int));
                let ghost s4 = relax_one(s3, dims, best as int, wheel_level as int, Direction::Left);
                proof {
                    lemma_relax_one_inv(s3, dims, src as int, wheel_level as int, best as int, Direction::Left);
                    assert(FillState { entries: self.entries@, visited: visited@ } == s4);
                }
                self.relax_step(&visited, best, Direction::Down, wheel_level, Ghost(src as int));
                let ghost s5 = relax_one(s4, dims, best as int, wheel_level as int, Direction::Down);
                proof {
                    lemma_relax_one_inv(s4, dims, src as int, wheel_level as int, best as int, Direction::Down);
                    assert(FillState { entries: self.entries@, visited: visited@ } == s5);
                    assert(s5 == fill_round(s_before, dims, wheel_level as int));
                    assert(fill_rounds(s0, dims, wheel_level as int, (round + 1) as nat)
                        == fill_round(
                        fill_rounds(s0, dims, wheel_level as int, round as nat),
                        dims,
                        wheel_level as int,
                    ));
                }
            } else {
                proof {
                    assert(min_unvisited(s_before.entries, s_before.visited) == -1);
                    assert(fill_round(s_before, dims, wheel_level as int) == s_before);
                    assert(fill_rounds(s0, dims, wheel_level as int, (round + 1) as nat)
                        == fill_round(
                        fill_rounds(s0, dims, wheel_level as int, round as nat),
                        dims,
                        wheel_level as int,
                    ));
                }
            }
            round = round + 1;
        }

        proof {
            let sf = FillState { entries: self.entries@, visited: visited@ };
            assert(self.entries@ == spec_fill(
                old(self).entries@,
                dims,
                source,
                wheel_level as int,
            ));
            lemma_fill_rounds_inv(s0, dims, src as int, wheel_level as int, n as nat);
            lemma_fill_init_inv(old(self).entries@, dims, src as int, wheel_level as int);
            assert forall|i: int| 0 <= i < self.entries@.len() implies entry_wf(
                self.entries@,
                dims,
                i,
            ) by {
                assert(entry_inv(sf, dims, wheel_level as int, i));
                assert(sf.entries[i].distance <= UNREACHED);
            }
            assert(self.tiles() =~= old(self).tiles());
        }
    }

    /// Fuses a snapshot into the grid and recomputes the shortest-path
    /// tree: the observation merge first, then the agent's own cell
    /// forced to `Air` (the agent cannot see itself as terrain), then a
    /// full fill from the agent's position.
    ///
    /// A snapshot whose dimensions or cell count disagree with the
    /// grid's is a protocol desynchronization the engine cannot recover
    /// from; such a snapshot is refused by precondition.
    pub fn update_with(
        &mut self,
        dimensions: Dimensions,
        tiles: &Vec<Tile>,
        agent_position: Position,
        wheel_level: usize,
    )
        requires
            old(self).wf(),
            dimensions == old(self).dimensions,
            tiles@.len() == old(self).entries@.len(),
            agent_position.in_bounds(old(self).dimensions),
            wheel_level >= 1,
        ensures
            final(self).wf(),
            final(self).dimensions == old(self).dimensions,
            final(self).fill_sound(agent_position),
            ({
                let merged = Seq::new(
                    old(self).entries@.len(),
                    |i: int| MapEntry {
                        tile: tiles@[i].merged_over(old(self).entries@[i].tile),
                        ..old(self).entries@[i]
                    },
                );
                let a = agent_position.linear(old(self).dimensions.width);
                let with_air = merged.update(a, MapEntry { tile: Tile::Air, ..merged[a] });
                &&& final(self).entries@ == spec_fill(
                    with_air,
                    old(self).dimensions,
                    agent_position,
                    wheel_level as int,
                )
                &&& final(self).tiles() == with_air.map_values(|e: MapEntry| e.tile)
            }),
    {
        self.merge_with(tiles);
        self.set_tile_at(agent_position, Tile::Air);
        proof {
            let merged = Seq::new(
                old(self).entries@.len(),
                |i: int| MapEntry {
                    tile: tiles@[i].merged_over(old(self).entries@[i].tile),
                    ..old(self).entries@[i]
                },
            );
            let a = agent_position.linear(old(self).dimensions.width);
            let with_air = merged.update(a, MapEntry { tile: Tile::Air, ..merged[a] });
            crate::position::lemma_linear_round_trip(agent_position, old(self).dimensions);
            assert(self.entries@ =~= with_air);
        }
        self.floodfill(agent_position, wheel_level);
    }
}

} // verus!


