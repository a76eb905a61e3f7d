use pacbomber::level::Level;
use pacbomber::types::Position;

#[test]
fn blast_stops_at_wall_before_range() {
    // a wall 3 open cells to the right of the bomb, with range 5
    let level = Level::new("#########\n#o   #  #\n#e      #\n#########\n").unwrap();
    let mut level = level;
    let bomb_pos = Position::new(1, 1);
    level.place_bomb(7, bomb_pos);
    let blast = level.bomb_explode_positions(7);
    // origin, three cells right (the wall at step 4 is never listed),
    // one cell down to the exit row
    assert_eq!(
        blast,
        vec![
            (Position::new(1, 1), 0, 5),
            (Position::new(2, 1), 1, 5),
            (Position::new(3, 1), 2, 5),
            (Position::new(4, 1), 3, 5),
            (Position::new(1, 2), 1, 5),
        ]
    );
    assert!(blast.iter().all(|(p, _, _)| *p != Position::new(5, 1)));
}

#[test]
fn blast_stops_at_range_in_open_corridor() {
    // more than 5 open cells to the right: the range clips the blast
    let level = Level::new("##########\n#o      e#\n##########\n").unwrap();
    let mut level = level;
    level.place_bomb(1, Position::new(1, 1));
    let blast = level.bomb_explode_positions(1);
    assert_eq!(
        blast,
        vec![
            (Position::new(1, 1), 0, 5),
            (Position::new(2, 1), 1, 5),
            (Position::new(3, 1), 2, 5),
            (Position::new(4, 1), 3, 5),
            (Position::new(5, 1), 4, 5),
            (Position::new(6, 1), 5, 5),
        ]
    );
}

#[test]
fn blast_direction_order_is_left_back_right_forward() {
    // an open 5 x 5 room, bomb in the middle with range 1 via a custom
    // bomb entry
    let mut level = Level::new("#####\n#   #\n# o #\n#  e#\n#####\n").unwrap();
    level.bomb_size = 1;
    level.place_bomb(3, Position::new(2, 2));
    let blast = level.bomb_explode_positions(3);
    assert_eq!(
        blast,
        vec![
            (Position::new(2, 2), 0, 1),
            (Position::new(1, 2), 1, 1),
            (Position::new(2, 1), 1, 1),
            (Position::new(3, 2), 1, 1),
            (Position::new(2, 3), 1, 1),
        ]
    );
}

#[test]
fn unknown_bomb_yields_empty_blast() {
    let level = Level::new("oe\n").unwrap();
    assert!(level.bomb_explode_positions(42).is_empty());
}

#[test]
fn resolved_bomb_yields_empty_blast() {
    let mut level = Level::new("#####\n#o e#\n#####\n").unwrap();
    level.place_bomb(9, Position::new(1, 1));
    assert!(!level.bomb_explode_positions(9).is_empty());
    level.remove_bomb(9);
    assert!(level.bomb_explode_positions(9).is_empty());
    // removing again stays a no-op
    level.remove_bomb(9);
    assert!(level.bomb_explode_positions(9).is_empty());
}

#[test]
fn place_bomb_records_configured_range() {
    let mut level = Level::new("oe\n").unwrap();
    level.place_bomb(5, Position::new(0, 0));
    assert_eq!(level.bombs.get(&5), Some(&(5, Position::new(0, 0))));
}
