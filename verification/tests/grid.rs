use mars_bot::direction::Direction;
use mars_bot::map::Grid;
use mars_bot::position::{Dimensions, Position};
use mars_bot::tile::{NonPlayerTile, Tile};
use mars_bot::UNREACHED;

fn pos(x: isize, y: isize) -> Position {
    Position { x, y }
}

fn grid_from(width: usize, height: usize, tiles: &[Tile]) -> Grid {
    let mut grid = Grid::new(Dimensions { width, height });
    grid.merge_with(&tiles.to_vec());
    grid
}

fn open_grid(width: usize, height: usize) -> Grid {
    grid_from(width, height, &vec![Tile::Air; width * height])
}

#[test]
fn fresh_grid_is_all_fog_and_unreached() {
    let grid = Grid::new(Dimensions { width: 3, height: 2 });
    assert_eq!(grid.entries.len(), 6);
    for x in 0..3 {
        for y in 0..2 {
            let entry = grid.entry_at(pos(x, y)).unwrap();
            assert_eq!(entry.tile, Tile::Fog);
            assert_eq!(entry.distance, UNREACHED);
            assert!(entry.parent.is_none());
        }
    }
}

#[test]
fn entry_at_rejects_out_of_bounds() {
    let grid = open_grid(4, 4);
    assert!(grid.entry_at(pos(-1, 0)).is_none());
    assert!(grid.entry_at(pos(0, -1)).is_none());
    assert!(grid.entry_at(pos(4, 0)).is_none());
    assert!(grid.entry_at(pos(0, 4)).is_none());
    assert!(grid.entry_at(pos(3, 3)).is_some());
}

#[test]
fn open_grid_distances_match_weights() {
    // A 4x4 all-Air grid filled from (0,0): (3,0) costs 3 steps x 5.
    let mut grid = open_grid(4, 4);
    grid.floodfill(pos(0, 0), 1);
    assert_eq!(grid.distance_to(pos(3, 0)), Some(15));
    assert_eq!(grid.distance_to(pos(0, 0)), Some(0));
    assert_eq!(grid.distance_to(pos(3, 3)), Some(30));
}

#[test]
fn one_wheel_path_is_one_move_right() {
    let mut grid = open_grid(4, 4);
    grid.floodfill(pos(0, 0), 1);
    let path = grid.find_path(pos(0, 0), pos(3, 0), 1).unwrap();
    assert_eq!(path.moves.mvs, [Some(Direction::Right), None, None]);
    assert_eq!(path.end_position, pos(1, 0));
    assert!(path.mine_direction.is_none());
}

#[test]
fn forced_stone_route_costs_the_first_move_penalty() {
    // (1,0) is Stone and, with the column below it Bedrock, the only
    // way east: entering it as the very first move costs 1000, and the
    // route stays valid, just expensive.
    let mut tiles = vec![Tile::Air; 16];
    tiles[1] = Tile::Stone;
    tiles[1 + 4] = Tile::Bedrock;
    tiles[1 + 8] = Tile::Bedrock;
    tiles[1 + 12] = Tile::Bedrock;
    let mut grid = grid_from(4, 4, &tiles);
    grid.floodfill(pos(0, 0), 1);
    assert_eq!(grid.distance_to(pos(1, 0)), Some(1000));
    assert_eq!(grid.distance_to(pos(3, 0)), Some(1010));
    assert!(grid.find_path(pos(0, 0), pos(3, 0), 1).is_some());
}

#[test]
fn stone_with_a_detour_is_avoided() {
    // Same grid but the row below is open: entering the stone as the
    // very first move would cost 1000, so the fill dips below it first
    // and re-enters it at a turn boundary (5+5+1+5+5 = 21), and the
    // path starts Down rather than Right.
    let mut tiles = vec![Tile::Air; 16];
    tiles[1] = Tile::Stone;
    let mut grid = grid_from(4, 4, &tiles);
    grid.floodfill(pos(0, 0), 1);
    assert_eq!(grid.distance_to(pos(3, 0)), Some(21));
    let path = grid.find_path(pos(0, 0), pos(3, 0), 1).unwrap();
    assert_eq!(path.moves.mvs[0], Some(Direction::Down));
}

#[test]
fn acid_level_one_paints_exactly_the_border() {
    // update_acid(1) on a 5x5 grid: all 16 border cells become Acid,
    // the 9 interior cells are untouched.
    let mut grid = open_grid(5, 5);
    grid.update_acid(1);
    let mut painted = 0;
    for x in 0..5isize {
        for y in 0..5isize {
            let tile = grid.tile_at(pos(x, y)).unwrap();
            let border = x == 0 || y == 0 || x == 4 || y == 4;
            if border {
                assert_eq!(tile, Tile::Acid);
                painted += 1;
            } else {
                assert_eq!(tile, Tile::Air);
            }
        }
    }
    assert_eq!(painted, 16);
}

#[test]
fn acid_paint_is_idempotent() {
    let mut once = open_grid(5, 5);
    once.update_acid(2);
    let mut twice = open_grid(5, 5);
    twice.update_acid(2);
    twice.update_acid(2);
    assert_eq!(once, twice);
}

#[test]
fn acid_ring_only_grows() {
    let mut grid = open_grid(6, 6);
    grid.update_acid(1);
    grid.update_acid(2);
    // Everything level 1 painted is still Acid after level 2.
    for x in 0..6isize {
        for y in 0..6isize {
            let border2 = x < 2 || y < 2 || x >= 4 || y >= 4;
            let tile = grid.tile_at(pos(x, y)).unwrap();
            assert_eq!(tile == Tile::Acid, border2);
        }
    }
}

#[test]
fn oversized_acid_level_floods_everything() {
    let mut grid = open_grid(3, 3);
    grid.update_acid(9);
    for x in 0..3isize {
        for y in 0..3isize {
            assert_eq!(grid.tile_at(pos(x, y)), Some(Tile::Acid));
        }
    }
}

#[test]
fn all_fog_snapshot_changes_nothing_but_the_agent_cell() {
    let mut tiles = vec![Tile::Stone; 9];
    tiles[4] = Tile::Iron;
    tiles[8] = Tile::Bedrock;
    let mut grid = grid_from(3, 3, &tiles);
    let before: Vec<Tile> = (0..9)
        .map(|i| grid.tile_at(pos(i % 3, i / 3)).unwrap())
        .collect();
    grid.update_with(
        Dimensions { width: 3, height: 3 },
        &vec![Tile::Fog; 9],
        pos(1, 0),
        1,
    );
    for i in 0..9isize {
        let p = pos(i % 3, i / 3);
        let now = grid.tile_at(p).unwrap();
        if p == pos(1, 0) {
            assert_eq!(now, Tile::Air);
        } else {
            assert_eq!(now, before[i as usize]);
        }
    }
}

#[test]
fn observations_overwrite_even_painted_acid() {
    let mut grid = open_grid(3, 3);
    grid.update_acid(1);
    assert_eq!(grid.tile_at(pos(0, 0)), Some(Tile::Acid));
    let mut snapshot = vec![Tile::Fog; 9];
    snapshot[0] = Tile::Iron;
    grid.merge_with(&snapshot);
    assert_eq!(grid.tile_at(pos(0, 0)), Some(Tile::Iron));
}

#[test]
fn two_fills_from_the_same_state_agree() {
    let mut tiles = vec![Tile::Air; 25];
    tiles[7] = Tile::Stone;
    tiles[12] = Tile::Bedrock;
    tiles[13] = Tile::Osmium;
    let mut a = grid_from(5, 5, &tiles);
    let mut b = grid_from(5, 5, &tiles);
    a.floodfill(pos(2, 4), 2);
    b.floodfill(pos(2, 4), 2);
    assert_eq!(a, b);
    // And refilling does not change the answer either.
    a.floodfill(pos(2, 4), 2);
    assert_eq!(a, b);
}

#[test]
fn bedrock_isolated_cell_keeps_the_sentinel() {
    // (4,0) is walled off behind Bedrock: it keeps the unreached
    // sentinel and no parent, and reconstruction refuses it.
    let mut tiles = vec![Tile::Air; 25];
    tiles[3] = Tile::Bedrock; // (3,0)
    tiles[3 + 5] = Tile::Bedrock; // (3,1)
    tiles[4 + 5] = Tile::Bedrock; // (4,1)
    let mut grid = grid_from(5, 5, &tiles);
    grid.floodfill(pos(0, 0), 1);
    let entry = grid.entry_at(pos(4, 0)).unwrap();
    assert_eq!(entry.distance, UNREACHED);
    assert!(entry.parent.is_none());
    assert!(grid.find_path(pos(0, 0), pos(4, 0), 1).is_none());
}

#[test]
fn reachability_round_trip() {
    let mut tiles = vec![Tile::Air; 25];
    tiles[3] = Tile::Bedrock;
    tiles[3 + 5] = Tile::Bedrock;
    tiles[4 + 5] = Tile::Bedrock;
    let mut grid = grid_from(5, 5, &tiles);
    grid.floodfill(pos(0, 0), 1);
    for x in 0..5isize {
        for y in 0..5isize {
            let finite = grid.distance_to(pos(x, y)).unwrap() < UNREACHED;
            let found = grid.find_path(pos(0, 0), pos(x, y), 1).is_some();
            assert_eq!(finite, found);
        }
    }
}

#[test]
fn path_never_exceeds_the_wheel_level() {
    let mut grid = open_grid(8, 8);
    for wheel in 1..=4usize {
        grid.floodfill(pos(0, 0), wheel);
        for x in 0..8isize {
            for y in 0..8isize {
                if let Some(path) = grid.find_path(pos(0, 0), pos(x, y), wheel) {
                    let count = path.moves.mvs.iter().filter(|m| m.is_some()).count();
                    assert!(count <= wheel);
                    assert!(count <= 3);
                }
            }
        }
    }
}

#[test]
fn path_to_the_source_is_empty() {
    let mut grid = open_grid(4, 4);
    grid.floodfill(pos(2, 2), 2);
    let path = grid.find_path(pos(2, 2), pos(2, 2), 2).unwrap();
    assert_eq!(path.moves.mvs, [None, None, None]);
    assert_eq!(path.end_position, pos(2, 2));
    assert!(path.mine_direction.is_none());
}

#[test]
fn mining_step_becomes_the_trailing_mine_action() {
    // Two irons in a row behind a fence: the second mining step sits at
    // a turn boundary, so reconstruction turns it into the trailing
    // mine aim and keeps only the move into the first iron.
    let mut tiles = vec![Tile::Air; 9];
    tiles[1] = Tile::Iron; // (1,0)
    tiles[2] = Tile::Iron; // (2,0)
    tiles[3] = Tile::Bedrock;
    tiles[4] = Tile::Bedrock;
    tiles[5] = Tile::Bedrock;
    let mut grid = grid_from(3, 3, &tiles);
    grid.floodfill(pos(0, 0), 1);
    assert_eq!(grid.distance_to(pos(1, 0)), Some(1000));
    assert_eq!(grid.distance_to(pos(2, 0)), Some(1001));
    let path = grid.find_path(pos(0, 0), pos(2, 0), 1).unwrap();
    assert_eq!(path.moves.mvs[0], Some(Direction::Right));
    assert_eq!(path.end_position, pos(1, 0));
    assert_eq!(path.mine_direction, Some(Direction::Right));
}

#[test]
fn fog_and_players_are_provisionally_traversable() {
    let mut tiles = vec![Tile::Air; 9];
    tiles[1] = Tile::Fog; // (1,0) weight 6
    tiles[2] = Tile::Player { id: 3 }; // (2,0) weight 30
    let mut grid = grid_from(3, 3, &tiles);
    grid.floodfill(pos(0, 0), 1);
    assert_eq!(grid.distance_to(pos(1, 0)), Some(6));
    assert_eq!(grid.distance_to(pos(2, 0)), Some(36));
}

#[test]
fn nearest_tile_prefers_the_smaller_distance() {
    let mut tiles = vec![Tile::Air; 25];
    tiles[4] = Tile::Iron; // (4,0), 4 steps away
    tiles[10] = Tile::Iron; // (0,2), 2 steps away
    let mut grid = grid_from(5, 5, &tiles);
    grid.floodfill(pos(0, 0), 1);
    assert_eq!(grid.nearest_tile(NonPlayerTile::Iron), Some(pos(0, 2)));
    assert_eq!(grid.closest_tile(NonPlayerTile::Iron), Some(pos(0, 2)));
    assert_eq!(grid.nearest_tile(NonPlayerTile::Osmium), None);
}

#[test]
fn unreachable_matches_are_not_nearest() {
    // Air | Bedrock | Osmium on one row: the only osmium is sealed
    // off, so the nearest-tile search answers None rather than a cell
    // no route reaches — though the cell itself is still listed as
    // present.
    let tiles = vec![Tile::Air, Tile::Bedrock, Tile::Osmium];
    let mut grid = grid_from(3, 1, &tiles);
    grid.floodfill(pos(0, 0), 1);
    assert_eq!(grid.distance_to(pos(2, 0)), Some(UNREACHED));
    assert_eq!(grid.nearest_tile(NonPlayerTile::Osmium), None);
    assert_eq!(grid.closest_tile(NonPlayerTile::Osmium), None);
    assert_eq!(grid.find_tiles(NonPlayerTile::Osmium), vec![pos(2, 0)]);
}

#[test]
fn nearest_tile_skips_sealed_matches_for_reachable_ones() {
    // One osmium sealed behind bedrock, one in the open: the search
    // reports the reachable one even though the sealed one comes
    // first in row-major order.
    let tiles = vec![
        Tile::Air, Tile::Bedrock, Tile::Osmium,
        Tile::Air, Tile::Air, Tile::Bedrock,
        Tile::Air, Tile::Osmium, Tile::Air,
    ];
    let mut grid = grid_from(3, 3, &tiles);
    grid.floodfill(pos(0, 0), 1);
    assert_eq!(grid.distance_to(pos(2, 0)), Some(UNREACHED));
    assert_eq!(grid.nearest_tile(NonPlayerTile::Osmium), Some(pos(1, 2)));
}

#[test]
fn find_tiles_lists_matches_in_row_major_order() {
    let mut tiles = vec![Tile::Air; 9];
    tiles[2] = Tile::Osmium;
    tiles[7] = Tile::Osmium;
    let grid = grid_from(3, 3, &tiles);
    let found = grid.find_tiles(NonPlayerTile::Osmium);
    assert_eq!(found, vec![pos(2, 0), pos(1, 2)]);
    assert!(grid.find_tiles(NonPlayerTile::Bedrock).is_empty());
}

#[test]
fn find_neighbour_honours_target_priority() {
    // Iron to the right, Osmium below: asked for [Osmium, Iron], the
    // later-listed direction loses to the earlier-listed target.
    let mut tiles = vec![Tile::Air; 9];
    tiles[1 + 3] = Tile::Iron; // (1,1): right of (0,1)
    tiles[0 + 6] = Tile::Osmium; // (0,2): below (0,1)
    let grid = grid_from(3, 3, &tiles);
    let found = grid
        .find_neighbour(
            pos(0, 1),
            &vec![NonPlayerTile::Osmium, NonPlayerTile::Iron],
        )
        .unwrap();
    assert_eq!(found.direction, Direction::Down);
    assert_eq!(found.position, pos(0, 2));
}

#[test]
fn find_neighbours_follows_direction_order() {
    let mut tiles = vec![Tile::Air; 9];
    tiles[2 + 3] = Tile::Stone; // (2,1): right of (1,1)
    tiles[0 + 3] = Tile::Stone; // (0,1): left of (1,1)
    let grid = grid_from(3, 3, &tiles);
    let found = grid.find_neighbours(pos(1, 1), NonPlayerTile::Stone);
    assert_eq!(found.len(), 2);
    assert_eq!(found[0].direction, Direction::Right);
    assert_eq!(found[1].direction, Direction::Left);
}

#[test]
fn tile_at_is_checks_terrain_and_bounds() {
    let mut tiles = vec![Tile::Air; 9];
    tiles[4] = Tile::Cobblestone;
    let grid = grid_from(3, 3, &tiles);
    assert!(grid.tile_at_is(pos(1, 1), NonPlayerTile::Cobblestone));
    assert!(!grid.tile_at_is(pos(0, 0), NonPlayerTile::Cobblestone));
    assert!(!grid.tile_at_is(pos(-1, 0), NonPlayerTile::Air));
    assert!(grid.tile_at_is_obstacle(pos(1, 1)));
    assert!(!grid.tile_at_is_obstacle(pos(0, 0)));
    assert!(!grid.tile_at_is_obstacle(pos(9, 9)));
}

#[test]
fn center_of_odd_and_even_grids() {
    let odd = open_grid(5, 5);
    assert_eq!(odd.center(), pos(2, 2));
    let even = open_grid(4, 6);
    assert_eq!(even.center(), pos(2, 3));
}
