use vstd::prelude::*;

use crate::direction::Direction;
use crate::flood_fill::{
    fill_init, fill_round, fill_rounds, lemma_fill_init_inv, lemma_fill_rounds_inv,
    lemma_mark_visited_inv, lemma_min_unvisited_from_range, lemma_pos_at_linear,
    lemma_relax_one_inv, min_unvisited, next_turn_move_index, relax_one, spec_fill, state_inv,
    step_cost, FillState,
};
use crate::map::{pos_at, Grid, MapEntry};
use crate::path_finding::{spec_find_path, walk, walk_fuel};
use crate::position::{Dimensions, Position};
use crate::tile::{tile_viable, Tile};
use crate::UNREACHED;

verus! {

/// Determinism of the fill: two grids in the same state — same
/// dimensions and the same tiles — fill to identical distances and
/// parents from the same source and wheel level. Together with
/// `floodfill`'s postcondition, which pins its result to [`spec_fill`],
/// this says two runs of the fill can never disagree.
pub proof fn lemma_fill_deterministic(a: Grid, b: Grid, source: Position, wheel_level: int)
    requires
        a.dimensions == b.dimensions,
        a.entries@.len() == b.entries@.len(),
        a.tiles() == b.tiles(),
    ensures
        spec_fill(a.entries@, a.dimensions, source, wheel_level) == spec_fill(
            b.entries@,
            b.dimensions,
            source,
            wheel_level,
        ),
{
    assert forall|i: int| 0 <= i < a.entries@.len() implies (#[trigger] a.entries@[i].tile)
        == b.entries@[i].tile by {
        assert(a.tiles()[i] == a.entries@[i].tile);
        assert(b.tiles()[i] == b.entries@[i].tile);
        assert(a.tiles()[i] == b.tiles()[i]);
    }
    crate::flood_fill::lemma_fill_depends_only_on_tiles(
        a.entries@,
        b.entries@,
        a.dimensions,
        source,
        wheel_level,
    );
}

/// Fog non-destructiveness of the observation merge: a snapshot that is
/// all `Fog` carries no observation, so merging it changes no cell at
/// all. (In `update_with` the one later change is the agent's own cell,
/// forced to `Air` after the merge.)
pub proof fn lemma_fog_merge_non_destructive(entries: Seq<MapEntry>, snapshot: Seq<Tile>)
    requires
        snapshot.len() == entries.len(),
        forall|i: int| 0 <= i < snapshot.len() ==> (#[trigger] snapshot[i]) is Fog,
    ensures
        Seq::new(
            entries.len(),
            |i: int| MapEntry { tile: snapshot[i].merged_over(entries[i].tile), ..entries[i] },
        ) == entries,
{
    assert(Seq::new(
        entries.len(),
        |i: int| MapEntry { tile: snapshot[i].merged_over(entries[i].tile), ..entries[i] },
    ) =~= entries);
}

/// Idempotence of the hazard paint: painting the same level twice is
/// the same as painting it once.
pub proof fn lemma_acid_paint_idempotent(
    entries: Seq<MapEntry>,
    dimensions: Dimensions,
    level: usize,
)
    ensures
        crate::map::acid_painted(
            crate::map::acid_painted(entries, dimensions, level),
            dimensions,
            level,
        ) == crate::map::acid_painted(entries, dimensions, level),
{
    assert(crate::map::acid_painted(
        crate::map::acid_painted(entries, dimensions, level),
        dimensions,
        level,
    ) =~= crate::map::acid_painted(entries, dimensions, level));
}

/// Monotonicity of the hazard ring: a larger level's ring contains every
/// smaller level's ring, so painting with growing levels only ever grows
/// the acid band — in particular, a cell painted at level `k1` is still
/// `Acid` after a later paint at any level `k2 >= k1`.
pub proof fn lemma_acid_ring_monotone(
    entries: Seq<MapEntry>,
    dimensions: Dimensions,
    k1: usize,
    k2: usize,
)
    requires
        k1 <= k2,
    ensures
        forall|p: Position|
            crate::map::in_acid_ring(p, dimensions, k1) ==> crate::map::in_acid_ring(
                p,
                dimensions,
                k2,
            ),
        forall|i: int|
            0 <= i < entries.len() && crate::map::in_acid_ring(
                pos_at(dimensions, i),
                dimensions,
                k1,
            ) ==> (#[trigger] crate::map::acid_painted(
                crate::map::acid_painted(entries, dimensions, k1),
                dimensions,
                k2,
            )[i]).tile is Acid,
{
}

/// The retained window never outgrows the wheel level during a walk.
pub proof fn lemma_walk_window_bound(
    entries: Seq<MapEntry>,
    dimensions: Dimensions,
    from: Position,
    location: Position,
    window: Seq<crate::map::ParentInfo>,
    mine_direction: Option<Direction>,
    wheel_level: int,
    fuel: nat,
)
    requires
        wheel_level >= 1,
        window.len() <= wheel_level,
    ensures
        match walk(entries, dimensions, from, location, window, mine_direction, wheel_level, fuel) {
            Some(wr) => wr.window.len() <= wheel_level,
            None => true,
        },
    decreases fuel,
{
    if location == from {
    } else if fuel == 0 {
    } else if !location.in_bounds(dimensions) {
    } else {
        match entries[location.linear(dimensions.width)].parent {
            None => {},
            Some(p) => {
                let boundary = window.len() > 0 && window[0].turn_move_index == 0;
                let window1 = if boundary {
                    Seq::<crate::map::ParentInfo>::empty()
                } else {
                    window
                };
                let mine1 = if boundary {
                    if window[0].requires_mining {
                        Some(window[0].direction)
                    } else {
                        None
                    }
                } else {
                    mine_direction
                };
                let record = crate::map::ParentInfo {
                    direction: p.direction,
                    location,
                    requires_mining: p.requires_mining,
                    turn_move_index: p.turn_move_index,
                };
                let window2 = seq![record] + window1;
                let window3 = if window2.len() > wheel_level {
                    window2.take(wheel_level)
                } else {
                    window2
                };
                lemma_walk_window_bound(
                    entries,
                    dimensions,
                    from,
                    p.location,
                    window3,
                    mine1,
                    wheel_level,
                    (fuel - 1) as nat,
                );
            },
        }
    }
}

/// Path length bound: a reconstructed path never carries more moves
/// than the wheel level allows, and never more than the three slots the
/// protocol has.
pub proof fn lemma_path_moves_bound(
    entries: Seq<MapEntry>,
    dimensions: Dimensions,
    from: Position,
    to: Position,
    wheel_level: int,
)
    requires
        wheel_level >= 1,
    ensures
        match spec_find_path(entries, dimensions, from, to, wheel_level) {
            Some(p) => p.moves.count() <= wheel_level && p.moves.count() <= 3,
            None => true,
        },
{
    lemma_walk_window_bound(
        entries,
        dimensions,
        from,
        to,
        Seq::empty(),
        None,
        wheel_level,
        walk_fuel(),
    );
}

/// The backward walk succeeds from every cell the fill reached, whatever
/// window and mining accumulator it is carrying.
pub proof fn lemma_walk_reaches(
    grid: Grid,
    source: Position,
    location: Position,
    window: Seq<crate::map::ParentInfo>,
    mine_direction: Option<Direction>,
    wheel_level: int,
    fuel: nat,
)
    requires
        grid.wf(),
        grid.fill_sound(source),
        location.in_bounds(grid.dimensions),
        grid.entries@[location.linear(grid.dimensions.width)].distance < UNREACHED,
        fuel > grid.entries@[location.linear(grid.dimensions.width)].distance,
    ensures
        walk(
            grid.entries@,
            grid.dimensions,
            source,
            location,
            window,
            mine_direction,
            wheel_level,
            fuel,
        ) is Some,
    decreases grid.entries@[location.linear(grid.dimensions.width)].distance,
{
    let dims = grid.dimensions;
    crate::position::lemma_linear_round_trip(location, dims);
    crate::position::lemma_linear_round_trip(source, dims);
    let i = location.linear(dims.width);
    if location == source {
    } else {
        assert(crate::map::entry_wf(grid.entries@, dims, i));
        assert(i != source.linear(dims.width)) by {
            if i == source.linear(dims.width) {
                crate::position::lemma_linear_injective(location, source, dims);
            }
        }
        match grid.entries@[i].parent {
            None => {
                assert(grid.entries@[i].distance == UNREACHED);
            },
            Some(p) => {
                crate::position::lemma_linear_round_trip(p.location, dims);
                let boundary = window.len() > 0 && window[0].turn_move_index == 0;
                let window1 = if boundary {
                    Seq::<crate::map::ParentInfo>::empty()
                } else {
                    window
                };
                let mine1 = if boundary {
                    if window[0].requires_mining {
                        Some(window[0].direction)
                    } else {
                        None
                    }
                } else {
                    mine_direction
                };
                let record = crate::map::ParentInfo {
                    direction: p.direction,
                    location,
                    requires_mining: p.requires_mining,
                    turn_move_index: p.turn_move_index,
                };
                let window2 = seq![record] + window1;
                let window3 = if window2.len() > wheel_level {
                    window2.take(wheel_level)
                } else {
                    window2
                };
                lemma_walk_reaches(
                    grid,
                    source,
                    p.location,
                    window3,
                    mine1,
                    wheel_level,
                    (fuel - 1) as nat,
                );
            },
        }
    }
}

/// Reachability round-trip: after a fill from `source`, path
/// reconstruction toward a goal succeeds exactly when the fill reached
/// that goal — `Some` for a finite distance, `None` for the unreached
/// sentinel.
pub proof fn lemma_reachability_round_trip(
    grid: Grid,
    source: Position,
    to: Position,
    wheel_level: int,
)
    requires
        grid.wf(),
        grid.fill_sound(source),
        to.in_bounds(grid.dimensions),
        wheel_level >= 1,
    ensures
        grid.entries@[to.linear(grid.dimensions.width)].distance < UNREACHED ==> spec_find_path(
            grid.entries@,
            grid.dimensions,
            source,
            to,
            wheel_level,
        ) is Some,
        grid.entries@[to.linear(grid.dimensions.width)].distance == UNREACHED ==> spec_find_path(
            grid.entries@,
            grid.dimensions,
            source,
            to,
            wheel_level,
        ) is None,
{
    let dims = grid.dimensions;
    crate::position::lemma_linear_round_trip(to, dims);
    crate::position::lemma_linear_round_trip(source, dims);
    let i = to.linear(dims.width);
    if grid.entries@[i].distance < UNREACHED {
        lemma_walk_reaches(grid, source, to, Seq::empty(), None, wheel_level, walk_fuel());
    } else {
        if to != source {
            assert(crate::map::entry_wf(grid.entries@, dims, i));
            assert(grid.entries@[i].parent is None);
        } else {
            assert(grid.entries@[i].distance == 0);
            assert(UNREACHED > 0);
        }
    }
}


/// A region of linear indices is closed under viable movement when no
/// step from a cell inside it lands, in bounds, on a viable tile outside
/// it. A region whose whole boundary is `Bedrock` is the archetype.
pub open spec fn region_closed(
    entries0: Seq<MapEntry>,
    dimensions: Dimensions,
    region: Set<int>,
) -> bool {
    forall|u: int, d: Direction|
        #![trigger region.contains(u), pos_at(dimensions, u).spec_step(d)]
        region.contains(u) && 0 <= u < entries0.len() && pos_at(dimensions, u).spec_step(
            d,
        ).in_bounds(dimensions) && tile_viable(
            entries0[pos_at(dimensions, u).spec_step(d).linear(dimensions.width)].tile,
        ) ==> region.contains(pos_at(dimensions, u).spec_step(d).linear(dimensions.width))
}

/// Every cell outside the region still carries the untouched search
/// state: the unreached sentinel and no parent.
pub open spec fn outside_untouched(s: FillState, region: Set<int>) -> bool {
    forall|i: int|
        0 <= i < s.entries.len() && !region.contains(i) ==> (#[trigger] s.entries[i]).distance
            == UNREACHED && s.entries[i].parent is None
}

proof fn lemma_iso_relax(
    s: FillState,
    dimensions: Dimensions,
    src: int,
    wheel_level: int,
    region: Set<int>,
    entries0: Seq<MapEntry>,
    u: int,
    d: Direction,
)
    requires
        state_inv(s, dimensions, src, wheel_level),
        wheel_level >= 1,
        0 <= u < s.entries.len(),
        s.visited[u],
        s.entries.len() == entries0.len(),
        forall|i: int| 0 <= i < s.entries.len() ==> (#[trigger] s.entries[i].tile) == entries0[i].tile,
        region_closed(entries0, dimensions, region),
        outside_untouched(s, region),
    ensures
        outside_untouched(relax_one(s, dimensions, u, wheel_level, d), region),
{
    let t = relax_one(s, dimensions, u, wheel_level, d);
    lemma_pos_at_linear(dimensions, u);
    let upos = pos_at(dimensions, u);
    let vpos = upos.spec_step(d);
    if vpos.in_bounds(dimensions) {
        crate::position::lemma_linear_round_trip(vpos, dimensions);
        let v = vpos.linear(dimensions.width);
        if !s.visited[v] && tile_viable(s.entries[v].tile) {
            let ue = s.entries[u];
            let ve = s.entries[v];
            let alt = ue.distance + step_cost(
                ve.tile,
                ue.parent is None,
                next_turn_move_index(ue, wheel_level),
            );
            if alt < ve.distance {
                assert(ve.distance <= UNREACHED);
                assert(ue.distance < UNREACHED);
                assert(region.contains(u));
                assert(tile_viable(entries0[v].tile));
                assert(region.contains(v));
                assert forall|i: int|
                    0 <= i < t.entries.len() && !region.contains(i) implies (#[trigger] t.entries[i]).distance
                        == UNREACHED && t.entries[i].parent is None by {
                    assert(i != v);
                    assert(t.entries[i] == s.entries[i]);
                }
            }
        }
    }
}

proof fn lemma_iso_round(
    s: FillState,
    dimensions: Dimensions,
    src: int,
    wheel_level: int,
    region: Set<int>,
    entries0: Seq<MapEntry>,
)
    requires
        state_inv(s, dimensions, src, wheel_level),
        wheel_level >= 1,
        s.entries.len() == entries0.len(),
        forall|i: int| 0 <= i < s.entries.len() ==> (#[trigger] s.entries[i].tile) == entries0[i].tile,
        region_closed(entries0, dimensions, region),
        outside_untouched(s, region),
    ensures
        outside_untouched(fill_round(s, dimensions, wheel_level), region),
{
    let u = min_unvisited(s.entries, s.visited);
    lemma_min_unvisited_from_range(s.entries, s.visited, 0, -1);
    if u != -1 {
        let s1 = FillState { entries: s.entries, visited: s.visited.update(u, true) };
        lemma_mark_visited_inv(s, dimensions, src, wheel_level, u);
        let s2 = relax_one(s1, dimensions, u, wheel_level, Direction::Right);
        lemma_iso_relax(s1, dimensions, src, wheel_level, region, entries0, u, Direction::Right);
        lemma_relax_one_inv(s1, dimensions, src, wheel_level, u, Direction::Right);
        let s3 = relax_one(s2, dimensions, u, wheel_level, Direction::Up);
        lemma_iso_relax(s2, dimensions, src, wheel_level, region, entries0, u, Direction::Up);
        lemma_relax_one_inv(s2, dimensions, src, wheel_level, u, Direction::Up);
        let s4 = relax_one(s3, dimensions, u, wheel_level, Direction::Left);
        lemma_iso_relax(s3, dimensions, src, wheel_level, region, entries0, u, Direction::Left);
        lemma_relax_one_inv(s3, dimensions, src, wheel_level, u, Direction::Left);
        lemma_iso_relax(s4, dimensions, src, wheel_level, region, entries0, u, Direction::Down);
    }
}

proof fn lemma_iso_rounds(
    s: FillState,
    dimensions: Dimensions,
    src: int,
    wheel_level: int,
    region: Set<int>,
    entries0: Seq<MapEntry>,
    k: nat,
)
    requires
        state_inv(s, dimensions, src, wheel_level),
        wheel_level >= 1,
        s.entries.len() == entries0.len(),
        forall|i: int| 0 <= i < s.entries.len() ==> (#[trigger] s.entries[i].tile) == entries0[i].tile,
        region_closed(entries0, dimensions, region),
        outside_untouched(s, region),
    ensures
        outside_untouched(fill_rounds(s, dimensions, wheel_level, k), region),
    decreases k,
{
    if k > 0 {
        lemma_iso_rounds(s, dimensions, src, wheel_level, region, entries0, (k - 1) as nat);
        let prev = fill_rounds(s, dimensions, wheel_level, (k - 1) as nat);
        lemma_fill_rounds_inv(s, dimensions, src, wheel_level, (k - 1) as nat);
        lemma_iso_round(prev, dimensions, src, wheel_level, region, entries0);
    }
}

/// Sentinel stability: a cell the fill cannot reach keeps the unreached
/// sentinel and no parent. "Cannot reach" is witnessed by any region of
/// cells that contains the source and is closed under viable movement —
/// for instance the connected component enclosed by `Bedrock` around the
/// source; everything outside it comes out of the fill untouched.
pub proof fn lemma_isolated_cells_stay_unreached(
    entries: Seq<MapEntry>,
    dimensions: Dimensions,
    source: Position,
    wheel_level: int,
    region: Set<int>,
)
    requires
        dimensions.valid(),
        entries.len() == dimensions.width * dimensions.height,
        source.in_bounds(dimensions),
        wheel_level >= 1,
        region.contains(source.linear(dimensions.width)),
        region_closed(entries, dimensions, region),
    ensures
        forall|i: int|
            0 <= i < entries.len() && !region.contains(i) ==> (#[trigger] spec_fill(
                entries,
                dimensions,
                source,
                wheel_level,
            )[i]).distance == UNREACHED && spec_fill(
                entries,
                dimensions,
                source,
                wheel_level,
            )[i].parent is None,
{
    crate::position::lemma_linear_round_trip(source, dimensions);
    let src = source.linear(dimensions.width);
    let s0 = fill_init(entries, src);
    lemma_fill_init_inv(entries, dimensions, src, wheel_level);
    assert forall|i: int|
        0 <= i < s0.entries.len() && !region.contains(i) implies (#[trigger] s0.entries[i]).distance
            == UNREACHED && s0.entries[i].parent is None by {
        assert(i != src);
        assert(s0.entries[i] == crate::flood_fill::fill_reset(entries)[i]);
    }
    lemma_iso_rounds(s0, dimensions, src, wheel_level, region, entries, entries.len() as nat);
    lemma_fill_rounds_inv(s0, dimensions, src, wheel_level, entries.len() as nat);
    let f = fill_rounds(s0, dimensions, wheel_level, entries.len() as nat);
    assert forall|i: int|
        0 <= i < entries.len() && !region.contains(i) implies (#[trigger] spec_fill(
            entries,
            dimensions,
            source,
            wheel_level,
        )[i]).distance == UNREACHED && spec_fill(
            entries,
            dimensions,
            source,
            wheel_level,
        )[i].parent is None by {
        assert(spec_fill(entries, dimensions, source, wheel_level) == f.entries);
        assert(f.entries[i].distance == UNREACHED && f.entries[i].parent is None);
    }
}

} // verus!

