use mars_bot::direction::Direction;
use mars_bot::opponents::{Opponents, Stats};
use mars_bot::player::{
    Item, Player, PlayerInventory, PlayerStats, Property, Upgrade, UpgradeCost,
};
use mars_bot::position::{Dimensions, Position, ShittyPosition};
use mars_bot::tile::{NonPlayerTile, Tile, ViableTile};

fn pos(x: isize, y: isize) -> Position {
    Position { x, y }
}

#[test]
fn direction_opposites_cancel() {
    for d in [Direction::Right, Direction::Up, Direction::Left, Direction::Down] {
        assert_eq!(d.opposite().opposite(), d);
        assert_eq!(d.clockwise().counter_clockwise(), d);
        assert_eq!(d.counter_clockwise().clockwise(), d);
        assert_ne!(d.opposite(), d);
    }
}

#[test]
fn direction_rotations_follow_trigonometric_order() {
    assert_eq!(Direction::Right.clockwise(), Direction::Down);
    assert_eq!(Direction::Up.clockwise(), Direction::Right);
    assert_eq!(Direction::Right.counter_clockwise(), Direction::Up);
    assert_eq!(Direction::Down.opposite(), Direction::Up);
}

#[test]
fn position_steps_one_cell() {
    let p = pos(2, 2);
    assert_eq!(p.step(Direction::Right), pos(3, 2));
    assert_eq!(p.step(Direction::Up), pos(2, 1));
    assert_eq!(p.step(Direction::Left), pos(1, 2));
    assert_eq!(p.step(Direction::Down), pos(2, 3));
}

#[test]
fn bounds_test_short_circuits_on_negatives() {
    let dims = Dimensions { width: 3, height: 2 };
    assert!(pos(0, 0).is_within_bounds(dims));
    assert!(pos(2, 1).is_within_bounds(dims));
    assert!(!pos(-1, 0).is_within_bounds(dims));
    assert!(!pos(0, -1).is_within_bounds(dims));
    assert!(!pos(3, 0).is_within_bounds(dims));
    assert!(!pos(0, 2).is_within_bounds(dims));
}

#[test]
fn linear_index_round_trips() {
    for i in 0..12usize {
        let p = Position::from_linear(i, 4);
        assert_eq!(p.to_linear(4), i);
    }
    assert_eq!(Position::from_linear(7, 4), pos(3, 1));
    assert_eq!(pos(3, 1).to_linear(4), 7);
}

#[test]
fn manhattan_distance_adds_both_axes() {
    assert_eq!(pos(0, 0).manhattan_distance(&pos(3, 4)), 7);
    assert_eq!(pos(3, 4).manhattan_distance(&pos(0, 0)), 7);
    assert_eq!(pos(5, 5).manhattan_distance(&pos(5, 5)), 0);
}

#[test]
fn shitty_position_widens_cleanly() {
    let p = ShittyPosition::new(-3, 7);
    assert_eq!(p.x, -3);
    assert_eq!(p.y, 7);
    assert_eq!(p.to_position(), pos(-3, 7));
}

#[test]
fn tile_weights_follow_the_cost_table() {
    let weight = |t: Tile| t.as_viable().unwrap().weight();
    assert_eq!(weight(Tile::Air), 5);
    assert_eq!(weight(Tile::Base), 5);
    assert_eq!(weight(Tile::Fog), 6);
    assert_eq!(weight(Tile::Osmium), 2);
    assert_eq!(weight(Tile::Iron), 4);
    assert_eq!(weight(Tile::Stone), 8);
    assert_eq!(weight(Tile::Cobblestone), 8);
    assert_eq!(weight(Tile::Player { id: 1 }), 30);
    assert_eq!(weight(Tile::Acid), 100);
    assert!(Tile::Bedrock.as_viable().is_none());
}

#[test]
fn only_minable_terrain_requires_mining() {
    let mining = |t: Tile| t.as_viable().unwrap().requires_mining();
    assert!(mining(Tile::Stone));
    assert!(mining(Tile::Cobblestone));
    assert!(mining(Tile::Iron));
    assert!(mining(Tile::Osmium));
    assert!(!mining(Tile::Air));
    assert!(!mining(Tile::Acid));
    assert!(!mining(Tile::Fog));
    assert!(!mining(Tile::Player { id: 0 }));
    assert_eq!(ViableTile::Osmium.weight(), 2);
}

#[test]
fn ores_and_obstacles_are_what_they_are() {
    assert!(Tile::Osmium.is_ore());
    assert!(Tile::Iron.is_ore());
    assert!(!Tile::Stone.is_ore());
    assert!(!Tile::Fog.is_ore());
    assert!(NonPlayerTile::Acid.is_obstacle());
    assert!(NonPlayerTile::Bedrock.is_obstacle());
    assert!(NonPlayerTile::Cobblestone.is_obstacle());
    assert!(NonPlayerTile::Stone.is_obstacle());
    assert!(!NonPlayerTile::Iron.is_obstacle());
    assert!(!NonPlayerTile::Air.is_obstacle());
}

#[test]
fn tile_conversions_round_trip() {
    for np in [
        NonPlayerTile::Air,
        NonPlayerTile::Base,
        NonPlayerTile::Cobblestone,
        NonPlayerTile::Stone,
        NonPlayerTile::Iron,
        NonPlayerTile::Osmium,
        NonPlayerTile::Bedrock,
        NonPlayerTile::Acid,
        NonPlayerTile::Fog,
    ] {
        let tile = np.to_tile();
        assert!(tile.matches(np));
        assert_eq!(tile.as_non_player(), Some(np));
    }
    assert_eq!(Tile::Player { id: 2 }.as_non_player(), None);
    assert!(!Tile::Player { id: 2 }.matches(NonPlayerTile::Air));
    assert_eq!(Tile::default(), Tile::Fog);
}

#[test]
fn labels_spell_out_the_stats() {
    assert_eq!(Property::HitPoints.label(), "hit points");
    assert_eq!(Property::WheelLevel.label(), "wheel level");
    assert_eq!(Item::Osmium.label(), "osmium");
}

#[test]
fn inventory_affords_when_both_currencies_cover() {
    let inventory = PlayerInventory { stone: 0, iron: 3, osmium: 1 };
    assert!(inventory.can_afford(UpgradeCost::new(3, 1)));
    assert!(inventory.can_afford(UpgradeCost::new(0, 0)));
    assert!(!inventory.can_afford(UpgradeCost::new(4, 0)));
    assert!(!inventory.can_afford(UpgradeCost::new(0, 2)));
}

#[test]
fn upgrade_costs_step_up_and_run_out() {
    let stats = |wheel: u8| PlayerStats {
        hit_points: 10,
        drill_level: 0,
        rifle_level: 0,
        wheel_level: wheel,
        sight_level: 0,
        has_antenna: false,
        has_battery: false,
    };
    assert_eq!(Upgrade::Wheel.cost(&stats(0)), Some(UpgradeCost::new(0, 0)));
    assert_eq!(Upgrade::Wheel.cost(&stats(1)), Some(UpgradeCost::new(3, 0)));
    assert_eq!(Upgrade::Wheel.cost(&stats(2)), Some(UpgradeCost::new(6, 1)));
    assert_eq!(Upgrade::Wheel.cost(&stats(3)), None);
    assert_eq!(Upgrade::Battery.cost(&stats(0)), Some(UpgradeCost::new(1, 1)));
    assert_eq!(Upgrade::Heal.cost(&stats(0)), Some(UpgradeCost::new(0, 1)));
}

#[test]
fn player_upgrades_at_base_or_with_battery() {
    let stats = PlayerStats {
        hit_points: 10,
        drill_level: 0,
        rifle_level: 0,
        wheel_level: 1,
        sight_level: 0,
        has_antenna: false,
        has_battery: false,
    };
    let inventory = PlayerInventory { stone: 0, iron: 0, osmium: 0 };
    let home = Player { position: pos(1, 1), stats, inventory, base: pos(1, 1) };
    assert!(home.can_upgrade());
    let away = Player { position: pos(2, 1), stats, inventory, base: pos(1, 1) };
    assert!(!away.can_upgrade());
    let battery = Player {
        position: pos(2, 1),
        stats: PlayerStats { has_battery: true, ..stats },
        inventory,
        base: pos(1, 1),
    };
    assert!(battery.can_upgrade());
}

#[test]
fn drill_threshold_holds_out_for_osmium() {
    let stats = PlayerStats {
        hit_points: 10,
        drill_level: 1,
        rifle_level: 0,
        wheel_level: 1,
        sight_level: 0,
        has_antenna: false,
        has_battery: false,
    };
    let poor = Player {
        position: pos(0, 0),
        stats,
        inventory: PlayerInventory { stone: 0, iron: 3, osmium: 1 },
        base: pos(0, 0),
    };
    // Raising the drill from level 1 would cost 3 iron, but the saving
    // threshold demands 100 osmium, so the player keeps saving.
    assert!(!poor.can_afford(Upgrade::Drill));
    assert!(poor.can_afford(Upgrade::Rifle));
}

#[test]
fn speed_is_the_distance_between_two_current_sightings() {
    // A record still marked current, re-sighted two cells away: the
    // wheel estimate is the taxicab distance covered.
    let mut opponent = mars_bot::opponents::Opponent {
        id: 7,
        position: pos(1, 1),
        stats: Stats { rifle_level: 2, wheel_level: 1 },
        up_to_date: true,
    };
    opponent.update(pos(3, 1));
    assert_eq!(opponent.position, pos(3, 1));
    assert_eq!(opponent.stats.wheel_level, 2);
    assert_eq!(opponent.stats.rifle_level, 2);
    assert!(opponent.up_to_date);

    // A stale record gives no baseline: the estimate falls back to 1.
    opponent.outdate();
    opponent.update(pos(3, 3));
    assert_eq!(opponent.stats.wheel_level, 1);
    assert!(opponent.up_to_date);
}

#[test]
fn opponents_are_tracked_across_snapshots() {
    let mut roster = Opponents::new();
    // First sighting at (1,1) of a 4-wide grid: fresh record.
    let mut tiles = vec![Tile::Air; 16];
    tiles[5] = Tile::Player { id: 7 };
    roster.update_with(&tiles, 4);
    assert_eq!(roster.opponents.len(), 1);
    assert_eq!(roster.opponents[0].id, 7);
    assert_eq!(roster.opponents[0].position, pos(1, 1));
    assert_eq!(roster.opponents[0].stats, Stats { rifle_level: 1, wheel_level: 1 });
    assert!(roster.opponents[0].up_to_date);

    // Re-sighted two cells away: the position follows. The whole
    // roster is marked stale before the scan is folded in, so the
    // snapshot-level wheel estimate stays at the fallback 1.
    let mut tiles = vec![Tile::Air; 16];
    tiles[7] = Tile::Player { id: 7 };
    roster.update_with(&tiles, 4);
    assert_eq!(roster.opponents[0].position, pos(3, 1));
    assert_eq!(roster.opponents[0].stats.wheel_level, 1);
    assert!(roster.opponents[0].up_to_date);

    // Out of sight: the record goes stale but is kept.
    let tiles = vec![Tile::Air; 16];
    roster.update_with(&tiles, 4);
    assert_eq!(roster.opponents.len(), 1);
    assert!(!roster.opponents[0].up_to_date);
}

#[test]
fn two_opponents_get_two_records() {
    let mut roster = Opponents::new();
    let mut tiles = vec![Tile::Air; 9];
    tiles[0] = Tile::Player { id: 1 };
    tiles[8] = Tile::Player { id: 2 };
    roster.update_with(&tiles, 3);
    assert_eq!(roster.opponents.len(), 2);
    assert_eq!(roster.opponents[0].id, 1);
    assert_eq!(roster.opponents[1].id, 2);
    assert_eq!(roster.opponents[1].position, pos(2, 2));
}
