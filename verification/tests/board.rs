use pacbomber::grid::Grid;
use pacbomber::level::Level;
use pacbomber::types::{BlockType, BoardDirection, LevelError, Position, WorldCoord};

const SMALL_OPEN: &str = "   \n o \n   \n";

#[test]
fn parse_first_level_finds_markers() {
    let map = pacbomber::levels::level_map(0).unwrap();
    let level = Level::new(map).unwrap();
    assert_eq!(level.grid.size, Position::new(17, 9));
    assert_eq!(level.player_position, Position::new(3, 7));
    assert_eq!(level.ending_position, Position::new(11, 6));
    assert!(!level.ending_visible);
    assert_eq!(level.bomb_size, 5);
    assert!(level.enemy_positions.is_empty());
    assert!(level.coin_positions.is_empty());
    assert!(level.bombs.is_empty());
}

#[test]
fn all_shipped_levels_parse() {
    for i in 0..pacbomber::levels::LEVEL_COUNT {
        let map = pacbomber::levels::level_map(i).unwrap();
        let level = Level::new(map).expect("shipped level must parse");
        assert!(level.grid.size.x > 0 && level.grid.size.z > 0);
    }
    assert!(pacbomber::levels::level_map(pacbomber::levels::LEVEL_COUNT).is_none());
}

#[test]
fn parse_rejects_unknown_character() {
    assert_eq!(Level::new("oe?\n").unwrap_err(), LevelError::UnknownMapCharacter);
}

#[test]
fn parse_rejects_uneven_rows() {
    assert_eq!(Level::new("oe\n###\n").unwrap_err(), LevelError::UnevenRows);
}

#[test]
fn parse_rejects_missing_player() {
    assert_eq!(Level::new("e \n").unwrap_err(), LevelError::MissingPlayerStart);
    assert_eq!(Level::new("").unwrap_err(), LevelError::MissingPlayerStart);
}

#[test]
fn parse_rejects_missing_exit() {
    assert_eq!(Level::new("o \n").unwrap_err(), LevelError::MissingExit);
}

#[test]
fn parse_drops_blank_lines() {
    let with_blanks = Level::new("\n\noe\n\n* \n\n").unwrap();
    let without = Level::new("oe\n* \n").unwrap();
    assert_eq!(with_blanks.grid.size, without.grid.size);
    assert_eq!(with_blanks.player_position, without.player_position);
}

#[test]
fn parse_last_marker_wins() {
    let level = Level::new("oo e\noe  \n").unwrap();
    assert_eq!(level.player_position, Position::new(0, 1));
    assert_eq!(level.ending_position, Position::new(1, 1));
}

#[test]
fn legend_matches_characters() {
    assert_eq!(BlockType::from_char('#'), Some(BlockType::WallBig));
    assert_eq!(BlockType::from_char('-'), Some(BlockType::WallSmallH));
    assert_eq!(BlockType::from_char('|'), Some(BlockType::WallSmallV));
    assert_eq!(BlockType::from_char('*'), Some(BlockType::Coin));
    assert_eq!(BlockType::from_char('o'), Some(BlockType::Player));
    assert_eq!(BlockType::from_char('x'), Some(BlockType::Enemy));
    assert_eq!(BlockType::from_char('e'), Some(BlockType::Exit));
    assert_eq!(BlockType::from_char(' '), Some(BlockType::Space));
    assert_eq!(BlockType::from_char('q'), None);
    assert!(BlockType::WallBig.is_wall());
    assert!(BlockType::WallSmallH.is_wall());
    assert!(BlockType::WallSmallV.is_wall());
    assert!(!BlockType::Coin.is_wall());
    assert!(!BlockType::Space.is_wall());
}

#[test]
fn get_is_total_over_bounds() {
    let grid = Grid::parse(SMALL_OPEN).unwrap();
    assert!(grid.get(-1, 0).is_none());
    assert!(grid.get(0, -1).is_none());
    assert!(grid.get(3, 0).is_none());
    assert!(grid.get(0, 3).is_none());
    assert!(grid.get(isize::MIN, isize::MAX).is_none());
    let cell = grid.get(1, 1).unwrap();
    assert_eq!(cell.kind, BlockType::Player);
    assert_eq!(cell.level_position, Position::new(1, 1));
}

#[test]
fn free_directions_keeps_enumeration_order() {
    let grid = Grid::parse(SMALL_OPEN).unwrap();
    let dirs = grid.free_directions(Position::new(1, 1));
    assert_eq!(
        dirs,
        vec![
            BoardDirection::new(1, 0),
            BoardDirection::new(-1, 0),
            BoardDirection::new(0, 1),
            BoardDirection::new(0, -1),
        ]
    );
}

#[test]
fn free_directions_excludes_bounds_and_walls() {
    // a corner: two directions leave the grid, one hits a wall
    let grid = Grid::parse(" #\n  \n").unwrap();
    let at_corner = grid.free_directions(Position::new(0, 0));
    assert_eq!(at_corner, vec![BoardDirection::new(0, 1)]);
    let at_other_corner = grid.free_directions(Position::new(1, 1));
    assert_eq!(at_other_corner, vec![BoardDirection::new(-1, 0)]);
    // off the grid entirely: nothing is free except cells back inside
    let outside = grid.free_directions(Position::new(7, 7));
    assert!(outside.is_empty());
}

#[test]
fn apply_direction_clamps_below_zero_only() {
    let mut p = Position::new(0, 0);
    p.apply_direction(&BoardDirection::new(-1, 0));
    assert_eq!(p, Position::new(0, 0));
    p.apply_direction(&BoardDirection::new(0, -1));
    assert_eq!(p, Position::new(0, 0));
    p.apply_direction(&BoardDirection::new(1, 1));
    assert_eq!(p, Position::new(1, 1));
    let mut q = Position::new(5, 2);
    q.apply_direction(&BoardDirection::new(-1, 1));
    assert_eq!(q, Position::new(4, 3));
}

#[test]
fn translate_centers_grid_on_origin() {
    let grid = Grid::parse("o \n e\n").unwrap();
    // a 2 x 2 grid in half-cell units: anchors at +/-1
    assert_eq!(grid.translate_from_position(Position::new(0, 0)), WorldCoord { x: -1, z: -1 });
    assert_eq!(grid.translate_from_position(Position::new(1, 0)), WorldCoord { x: 1, z: -1 });
    assert_eq!(grid.translate_from_position(Position::new(1, 1)), WorldCoord { x: 1, z: 1 });
}

#[test]
fn world_round_trip_recovers_every_cell() {
    let grid = Grid::parse(pacbomber::levels::level_map(0).unwrap()).unwrap();
    for z in 0..grid.size.z {
        for x in 0..grid.size.x {
            let p = Position::new(x, z);
            let w = grid.translate_from_position(p);
            assert_eq!(grid.position_from_translation(w), Some(p));
        }
    }
    // with odd dimensions the exact center is the middle cell's anchor
    assert_eq!(grid.position_from_translation(WorldCoord { x: 0, z: 0 }), Some(Position::new(8, 4)));
    // a coordinate between cell anchors names no cell
    assert_eq!(grid.position_from_translation(WorldCoord { x: 1, z: 0 }), None);
    // one outside the grid names no cell
    assert_eq!(grid.position_from_translation(WorldCoord { x: 1000, z: 1 }), None);
}

#[test]
fn direction_scales_componentwise() {
    let d = BoardDirection::new(-1, 0).scaled(3);
    assert_eq!(d, BoardDirection::new(-3, 0));
    assert_eq!(BoardDirection::new(0, 1).scaled(5), BoardDirection::new(0, 5));
    assert_eq!(BoardDirection::default(), BoardDirection::new(0, 0));
    assert_eq!(Position::default(), Position::new(0, 0));
}

#[test]
fn blocks_carry_their_anchor() {
    let grid = Grid::parse(pacbomber::levels::level_map(1).unwrap()).unwrap();
    for row in grid.rows.iter() {
        for block in row.iter() {
            assert_eq!(block.position, grid.translate_from_position(block.level_position));
        }
    }
}

#[test]
fn move_target_validates_steps() {
    let level = Level::new("#####\n#o e#\n#####\n").unwrap();
    let from = level.player_position;
    // right is open
    assert_eq!(
        level.move_target(from, BoardDirection::new(1, 0)),
        Some(Position::new(2, 1))
    );
    // left, up and down hit walls
    assert_eq!(level.move_target(from, BoardDirection::new(-1, 0)), None);
    assert_eq!(level.move_target(from, BoardDirection::new(0, -1)), None);
    assert_eq!(level.move_target(from, BoardDirection::new(0, 1)), None);
    // a non-cardinal direction is never accepted
    assert_eq!(level.move_target(from, BoardDirection::new(1, 1)), None);
}
