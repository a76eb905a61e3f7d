use pacbomber::level::Level;
use pacbomber::levels::{level_bombs, CurrentLevel, Score, LEVEL_COUNT};
use pacbomber::types::Position;

#[test]
fn exit_reveal_is_one_way() {
    let mut level = Level::new("#####\n#o e#\n#####\n").unwrap();
    assert!(!level.ending_visible);
    level.reveal_ending();
    assert!(level.ending_visible);
    // no later board operation resets the flag
    level.insert_enemy(1, Position::new(2, 1));
    level.remove_enemy(1);
    level.insert_coin(2, Position::new(2, 1));
    level.remove_coin(2);
    level.clear_coins();
    level.place_bomb(3, Position::new(1, 1));
    level.bomb_explode_positions(3);
    level.remove_bomb(3);
    level.set_player_position(Position::new(2, 1));
    level.reveal_ending();
    assert!(level.ending_visible);
}

#[test]
fn occupancy_maps_track_identifiers() {
    let mut level = Level::new("#####\n#o e#\n#####\n").unwrap();
    level.insert_enemy(10, Position::new(1, 1));
    level.insert_enemy(11, Position::new(2, 1));
    assert_eq!(level.enemy_positions.len(), 2);
    assert!(!level.enemies_cleared());
    level.remove_enemy(10);
    level.remove_enemy(99); // unknown identifiers are a no-op
    assert_eq!(level.enemy_positions.len(), 1);
    level.remove_enemy(11);
    assert!(level.enemies_cleared());

    level.insert_coin(20, Position::new(3, 1));
    assert_eq!(level.coin_positions.get(&20), Some(&Position::new(3, 1)));
    level.insert_coin(20, Position::new(1, 1)); // retracking moves it
    assert_eq!(level.coin_positions.get(&20), Some(&Position::new(1, 1)));
    level.clear_coins();
    assert!(level.coin_positions.is_empty());
}

#[test]
fn player_position_moves() {
    let mut level = Level::new("#####\n#o e#\n#####\n").unwrap();
    assert_eq!(level.player_position, Position::new(1, 1));
    level.set_player_position(Position::new(2, 1));
    assert_eq!(level.player_position, Position::new(2, 1));
}

#[test]
fn bomb_allowance_per_level() {
    assert_eq!(level_bombs(0), 3);
    assert_eq!(level_bombs(1), 3);
    assert_eq!(level_bombs(2), 3);
    assert_eq!(level_bombs(3), 5);
    assert_eq!(level_bombs(4), 5);
}

#[test]
fn score_starts_with_first_level_bombs() {
    let score = Score::default();
    assert_eq!(score.coins, 0);
    assert_eq!(score.moves, 0);
    assert_eq!(score.bombs, 3);
}

#[test]
fn current_level_advances_to_roster_end() {
    assert_eq!(CurrentLevel(0).next().unwrap().0, 1);
    assert_eq!(CurrentLevel(3).next().unwrap().0, 4);
    assert!(CurrentLevel(LEVEL_COUNT - 1).next().is_none());
    assert!(CurrentLevel(LEVEL_COUNT).next().is_none());
}

#[test]
fn rows_expose_the_grid() {
    let level = Level::new("oe\n").unwrap();
    let rows = level.rows();
    assert_eq!(rows.len(), 1);
    assert_eq!(rows[0].len(), 2);
    assert_eq!(rows[0][1].level_position, Position::new(1, 0));
}
