use pacbomber::grid::Grid;
use pacbomber::types::Position;

#[test]
fn test_wall_positions() {
    let level_data = r#"
          x
###########
##        #
#         x
*         x
-----******
"#;
    let level = Grid::parse(level_data).unwrap();
    let pos = level.wall_positions(Position::new(0, 0));
    assert_eq!(pos.len(), 15);
}

#[test]
fn wall_positions_empty_without_wall_below() {
    let grid = Grid::parse("o \n e\n").unwrap();
    assert!(grid.wall_positions(Position::new(0, 0)).is_empty());
    // off the grid: nothing below
    assert!(grid.wall_positions(Position::new(9, 9)).is_empty());
    // bottom row: below is off the grid
    assert!(grid.wall_positions(Position::new(0, 1)).is_empty());
}

#[test]
fn wall_positions_starts_at_south_neighbor() {
    let grid = Grid::parse("  \n##\n").unwrap();
    let pos = grid.wall_positions(Position::new(1, 0));
    assert_eq!(pos[0], Position::new(1, 1));
    assert_eq!(pos.len(), 2);
    assert!(pos.contains(&Position::new(0, 1)));
}

#[test]
fn wall_positions_small_vertical_seed_does_not_grow_sideways() {
    // the seed is a small vertical wall: it is listed itself, and its
    // neighbors still join, but another small vertical wall never does
    let grid = Grid::parse("  \n|#\n |\n").unwrap();
    let pos = grid.wall_positions(Position::new(0, 0));
    assert!(pos.contains(&Position::new(0, 1)));
    assert!(pos.contains(&Position::new(1, 1)));
    assert!(!pos.contains(&Position::new(1, 2)));
    assert_eq!(pos.len(), 2);
}

#[test]
fn wall_positions_cluster_stops_at_gaps() {
    // two wall clusters separated by open cells: only the one below is
    // collected
    let grid = Grid::parse("   \n## \n   \n###\n").unwrap();
    let pos = grid.wall_positions(Position::new(0, 0));
    assert_eq!(pos.len(), 2);
    assert!(pos.contains(&Position::new(0, 1)));
    assert!(pos.contains(&Position::new(1, 1)));
    assert!(!pos.contains(&Position::new(0, 3)));
}
