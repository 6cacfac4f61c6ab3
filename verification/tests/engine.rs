use mars_bot::bot::{try_init, upgrade_queue_at, Bot, Cage, GameInput};
use mars_bot::logic::GameState;
use mars_bot::map::Grid;
use mars_bot::opponents::Opponents;
use mars_bot::output::Output;
use mars_bot::player::{Player, PlayerInventory, PlayerStats, Upgrade};
use mars_bot::position::{Dimensions, Position};
use mars_bot::tile::Tile;
use mars_bot::wander::random_move;

fn pos(x: isize, y: isize) -> Position {
    Position { x, y }
}

fn stats(wheel: u8) -> PlayerStats {
    PlayerStats {
        hit_points: 10,
        drill_level: 0,
        rifle_level: 0,
        wheel_level: wheel,
        sight_level: 0,
        has_antenna: false,
        has_battery: false,
    }
}

fn input_from(width: usize, height: usize, tiles: &[Tile], at: Position) -> GameInput {
    let mut map = Grid::new(Dimensions { width, height });
    map.merge_with(&tiles.to_vec());
    GameInput {
        map,
        player_position: at,
        player_stats: stats(1),
        player_inventory: PlayerInventory { stone: 0, iron: 0, osmium: 0 },
    }
}

#[test]
fn acid_level_grows_from_the_start_turn() {
    let mut bot = bot_on_open_ground(5, 5, pos(2, 2));
    bot.turn = 0;
    assert_eq!(bot.acid_level(), 0);
    bot.turn = 149;
    assert_eq!(bot.acid_level(), 0);
    bot.turn = 150;
    assert_eq!(bot.acid_level(), 1);
    bot.turn = 151;
    assert_eq!(bot.acid_level(), 1);
    bot.turn = 152;
    assert_eq!(bot.acid_level(), 2);
    bot.turn = 160;
    assert_eq!(bot.acid_level(), 6);
}

fn bot_on_open_ground(width: usize, height: usize, at: Position) -> Bot {
    let input = input_from(width, height, &vec![Tile::Air; width * height], at);
    let (bot, _) = try_init(&input);
    bot
}

#[test]
fn upgrade_queue_starts_with_a_battery() {
    assert_eq!(upgrade_queue_at(0), Some(Upgrade::Battery));
    assert_eq!(upgrade_queue_at(1), Some(Upgrade::Sight));
    assert_eq!(upgrade_queue_at(9), Some(Upgrade::Drill));
    assert_eq!(upgrade_queue_at(10), None);
}

#[test]
fn hurt_bot_targets_healing() {
    let mut bot = bot_on_open_ground(5, 5, pos(2, 2));
    assert_eq!(bot.target_upgrade(), Some(Upgrade::Battery));
    bot.player.stats.hit_points = 3;
    assert_eq!(bot.target_upgrade(), Some(Upgrade::Heal));
}

#[test]
fn buying_advances_the_queue_but_healing_does_not() {
    let mut bot = bot_on_open_ground(5, 5, pos(2, 2));
    // At base with the battery's price in hand: the purchase happens
    // and the queue moves on.
    bot.player.inventory = PlayerInventory { stone: 0, iron: 1, osmium: 1 };
    assert_eq!(bot.try_upgrade(), Some(Upgrade::Battery));
    assert_eq!(bot.upgrade_queue_index, 1);
    // Healing is bought without consuming a queue position.
    bot.player.stats.hit_points = 2;
    assert_eq!(bot.try_upgrade(), Some(Upgrade::Heal));
    assert_eq!(bot.upgrade_queue_index, 1);
    // Away from base with no battery, nothing is bought.
    bot.player.stats.hit_points = 10;
    bot.player.position = pos(0, 0);
    assert_eq!(bot.try_upgrade(), None);
    assert_eq!(bot.upgrade_queue_index, 1);
}

#[test]
fn should_rtb_only_when_savings_wait() {
    let mut bot = bot_on_open_ground(5, 5, pos(2, 2));
    bot.player.position = pos(0, 0);
    assert!(!bot.should_rtb());
    bot.player.inventory = PlayerInventory { stone: 0, iron: 1, osmium: 1 };
    assert!(bot.should_rtb());
    bot.player.position = bot.player.base;
    assert!(!bot.should_rtb());
}

#[test]
fn first_turn_on_bare_ground_does_nothing() {
    // All Air, nothing to mine, nowhere to go, nothing affordable: the
    // very first command is empty.
    let input = input_from(5, 5, &vec![Tile::Air; 25], pos(2, 2));
    let (bot, output) = try_init(&input);
    assert_eq!(output, Output { moves: None, action: None, upgrade: None });
    assert_eq!(bot.turn, 1);
    assert_eq!(bot.player.base, pos(2, 2));
    assert_eq!(bot.player.position, pos(2, 2));
}

#[test]
fn first_turn_heads_for_the_nearest_ore() {
    let mut tiles = vec![Tile::Air; 25];
    tiles[4] = Tile::Osmium; // (4,0)
    let input = input_from(5, 5, &tiles, pos(0, 0));
    let (bot, output) = try_init(&input);
    // One wheel level: a single move toward the osmium.
    let moves = output.moves.expect("a move toward the ore");
    assert!(moves.mvs[0].is_some());
    assert!(moves.mvs[1].is_none());
    assert_ne!(bot.player.position, pos(0, 0));
}

#[test]
fn adjacent_ore_is_mined_at_once() {
    // Iron at (1,1): the fill reaches it through (1,0) (the earlier
    // cell wins the tie), so the turn moves right, ends next to the
    // ore, and carries a mining action aimed down at it.
    let mut tiles = vec![Tile::Air; 25];
    tiles[6] = Tile::Iron; // (1,1)
    let input = input_from(5, 5, &tiles, pos(0, 0));
    let (bot, output) = try_init(&input);
    assert_eq!(bot.player.position, pos(1, 0));
    let moves = output.moves.expect("one move right");
    assert_eq!(moves.mvs[0], Some(mars_bot::direction::Direction::Right));
    match output.action {
        Some(mars_bot::output::Action::Mine { direction }) => {
            assert_eq!(direction, mars_bot::direction::Direction::Down);
        },
        other => panic!("expected a mining action, got {:?}", other),
    }
}

#[test]
fn unreachable_ore_falls_through_to_the_next_goal() {
    // The only osmium is sealed behind bedrock; iron sits in the open.
    // The goal chain passes over the unreachable osmium and the first
    // turn heads for the iron instead of standing still.
    let mut tiles = vec![Tile::Air; 25];
    tiles[4] = Tile::Osmium; // (4,0), sealed
    tiles[3] = Tile::Bedrock; // (3,0)
    tiles[9] = Tile::Bedrock; // (4,1)
    tiles[20] = Tile::Iron; // (0,4)
    let input = input_from(5, 5, &tiles, pos(0, 0));
    let (bot, output) = try_init(&input);
    let moves = output.moves.expect("a move toward the reachable iron");
    assert_eq!(moves.mvs[0], Some(mars_bot::direction::Direction::Down));
    assert_eq!(bot.player.position, pos(0, 1));
}

#[test]
fn fog_draws_the_explorer() {
    let mut tiles = vec![Tile::Air; 25];
    tiles[24] = Tile::Fog; // (4,4)
    let input = input_from(5, 5, &tiles, pos(0, 0));
    let (_, output) = try_init(&input);
    assert!(output.moves.is_some());
}

#[test]
fn feeding_keeps_the_base_and_bumps_nothing() {
    let input = input_from(4, 4, &vec![Tile::Air; 16], pos(1, 1));
    let (mut bot, _) = try_init(&input);
    let later = input_from(4, 4, &vec![Tile::Air; 16], pos(2, 1));
    bot.feed_input(&later);
    assert_eq!(bot.player.position, pos(2, 1));
    assert_eq!(bot.player.base, pos(1, 1));
    assert_eq!(bot.turn, 1);
}

#[test]
fn game_state_process_input_starts_and_continues() {
    let input = input_from(4, 4, &vec![Tile::Air; 16], pos(1, 1));
    let state = GameState::process_input(None, &input);
    assert_eq!(state.bot.turn, 0);
    assert_eq!(state.bot.player.base, pos(1, 1));
    assert_eq!(state.bot.cage, Cage { entryway: None, step: 0 });
    let again = input_from(4, 4, &vec![Tile::Air; 16], pos(2, 1));
    let state = GameState::process_input(Some(state), &again);
    assert_eq!(state.bot.player.position, pos(2, 1));
    assert_eq!(state.bot.player.base, pos(1, 1));
}

#[test]
fn magic_plays_one_turn() {
    let input = input_from(5, 5, &vec![Tile::Air; 25], pos(2, 2));
    let mut state = GameState::process_input(None, &input);
    let output = state.magic(&input);
    assert_eq!(output, Output { moves: None, action: None, upgrade: None });
    assert_eq!(state.bot.turn, 1);
}

#[test]
fn opponent_position_is_exact_only_when_current() {
    let mut tiles = vec![Tile::Air; 16];
    tiles[6] = Tile::Player { id: 4 }; // (2,1)
    let input = input_from(4, 4, &tiles, pos(0, 0));
    let mut state = GameState::process_input(None, &input);
    assert_eq!(state.opponent_exact_position(), Some(pos(2, 1)));
    let cached = state.cached_player().unwrap();
    assert_eq!(cached.position, pos(2, 1));
    assert!(cached.up_to_date);
    // The opponent vanishes from the next scan: no exact position.
    let gone = input_from(4, 4, &vec![Tile::Air; 16], pos(0, 0));
    state.bot.feed_input(&gone);
    assert_eq!(state.opponent_exact_position(), None);
    assert!(state.cached_player().is_none());
}

#[test]
fn players_in_the_scan_become_roster_entries_via_turn() {
    let mut tiles = vec![Tile::Air; 16];
    tiles[3] = Tile::Player { id: 9 };
    let input = input_from(4, 4, &tiles, pos(0, 1));
    let (bot, _) = try_init(&input);
    assert_eq!(bot.opponents.opponents.len(), 1);
    assert_eq!(bot.opponents.opponents[0].id, 9);
    assert_eq!(bot.opponents.opponents[0].position, pos(3, 0));
}

#[test]
fn random_move_is_always_a_single_move() {
    for _ in 0..32 {
        let moves = random_move();
        assert!(moves.mvs[0].is_some());
        assert!(moves.mvs[1].is_none());
        assert!(moves.mvs[2].is_none());
    }
}

#[test]
fn empty_roster_means_no_opponents() {
    let roster = Opponents::new();
    assert!(roster.opponents.is_empty());
    let _ = Player {
        position: pos(0, 0),
        stats: stats(1),
        inventory: PlayerInventory { stone: 0, iron: 0, osmium: 0 },
        base: pos(0, 0),
    };
}
