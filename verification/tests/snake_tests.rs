use snake_dqn::snake::{Dir, Snake};

#[test]
fn opposite_headings() {
    assert!(Dir::Up.is_opposite(Dir::Down));
    assert!(Dir::Down.is_opposite(Dir::Up));
    assert!(Dir::Left.is_opposite(Dir::Right));
    assert!(Dir::Right.is_opposite(Dir::Left));
    assert!(!Dir::Up.is_opposite(Dir::Up));
    assert!(!Dir::Up.is_opposite(Dir::Left));
    assert!(!Dir::Right.is_opposite(Dir::Down));
}

#[test]
fn deltas_with_y_pointing_down() {
    assert_eq!(Dir::Up.delta(), (0, -1));
    assert_eq!(Dir::Down.delta(), (0, 1));
    assert_eq!(Dir::Left.delta(), (-1, 0));
    assert_eq!(Dir::Right.delta(), (1, 0));
}

#[test]
fn relative_actions_turn_in_the_snakes_frame() {
    assert_eq!(Dir::Up.relative(0), Dir::Left);
    assert_eq!(Dir::Up.relative(1), Dir::Up);
    assert_eq!(Dir::Up.relative(2), Dir::Right);
    assert_eq!(Dir::Down.relative(0), Dir::Right);
    assert_eq!(Dir::Down.relative(2), Dir::Left);
    assert_eq!(Dir::Left.relative(0), Dir::Down);
    assert_eq!(Dir::Left.relative(2), Dir::Up);
    assert_eq!(Dir::Right.relative(0), Dir::Up);
    assert_eq!(Dir::Right.relative(2), Dir::Down);
    assert_eq!(Dir::Right.relative(1), Dir::Right);
    assert_eq!(Dir::Right.relative(7), Dir::Right);
}

#[test]
fn new_snake_has_three_cells_heading_right() {
    let s = Snake::new(5, 4);
    assert_eq!(s.segments_vec(), vec![(4, 4), (5, 4), (6, 4)]);
    assert_eq!(s.head(), (6, 4));
    assert_eq!(s.dir(), Dir::Right);
    assert_eq!(s.len(), 3);
}

#[test]
fn advance_moves_head_and_tail() {
    let mut s = Snake::new(5, 4);
    s.advance();
    assert_eq!(s.segments_vec(), vec![(5, 4), (6, 4), (7, 4)]);
    s.apply_dir(Dir::Up);
    s.advance();
    assert_eq!(s.segments_vec(), vec![(6, 4), (7, 4), (7, 3)]);
    assert_eq!(s.head(), (7, 3));
}

#[test]
fn apply_dir_refuses_a_reversal() {
    let mut s = Snake::new(5, 4);
    s.apply_dir(Dir::Left);
    assert_eq!(s.dir(), Dir::Right);
    s.apply_dir(Dir::Down);
    assert_eq!(s.dir(), Dir::Down);
    s.apply_dir(Dir::Up);
    assert_eq!(s.dir(), Dir::Down);
}

#[test]
fn feed_keeps_the_tail_for_one_step() {
    let mut s = Snake::new(5, 4);
    s.feed();
    s.advance();
    assert_eq!(s.segments_vec(), vec![(4, 4), (5, 4), (6, 4), (7, 4)]);
    s.advance();
    assert_eq!(s.segments_vec(), vec![(5, 4), (6, 4), (7, 4), (8, 4)]);
    s.feed();
    s.feed();
    s.advance();
    s.advance();
    s.advance();
    assert_eq!(s.len(), 6);
}

#[test]
fn occupies_every_cell_of_the_body_and_no_other() {
    let s = Snake::new(5, 4);
    assert!(s.occupies(4, 4));
    assert!(s.occupies(5, 4));
    assert!(s.occupies(6, 4));
    assert!(!s.occupies(7, 4));
    assert!(!s.occupies(5, 5));
    assert!(!s.occupies(4, 5));
}

#[test]
fn self_collision_when_the_head_meets_the_body() {
    let mut s = Snake::new(5, 4);
    assert!(!s.self_collision());
    s.feed();
    s.feed();
    s.advance();
    s.advance();
    // Five cells: (4,4) (5,4) (6,4) (7,4) (8,4).
    s.apply_dir(Dir::Down);
    s.advance();
    assert!(!s.self_collision());
    s.apply_dir(Dir::Left);
    s.advance();
    assert!(!s.self_collision());
    s.apply_dir(Dir::Up);
    s.advance();
    // Head back on (7,4), which is still part of the body.
    assert_eq!(s.head(), (7, 4));
    assert!(s.self_collision());
}
