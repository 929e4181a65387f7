use snake_dqn::border::Border;
use snake_dqn::food::Food;

#[test]
fn border_keeps_its_sides() {
    let b = Border::new(24, 16);
    assert_eq!(b.width, 24);
    assert_eq!(b.height, 16);
}

#[test]
fn border_is_inside() {
    let b = Border::new(24, 16);
    assert!(b.is_inside(0, 0));
    assert!(b.is_inside(23, 15));
    assert!(!b.is_inside(24, 15));
    assert!(!b.is_inside(23, 16));
    assert!(!b.is_inside(-1, 0));
    assert!(!b.is_inside(0, -1));
    assert!(!b.is_inside(i32::MIN, i32::MAX));
}

#[test]
fn empty_border_holds_nothing() {
    let b = Border::new(0, 5);
    assert!(!b.is_inside(0, 0));
}

#[test]
fn food_at_a_cell() {
    let f = Food::at(3, 9);
    assert_eq!(f.x, 3);
    assert_eq!(f.y, 9);
}

#[test]
fn random_food_lies_on_the_board() {
    let mut i: u32 = 0;
    let mut seen_other: bool = false;
    while i < 2000 {
        let f = Food::new_random(5, 3);
        assert!(f.x < 5);
        assert!(f.y < 3);
        if f.x != 0 || f.y != 0 {
            seen_other = true;
        }
        i += 1;
    }
    assert!(seen_other);
}

#[test]
fn random_food_on_a_single_cell() {
    let f = Food::new_random(1, 1);
    assert_eq!((f.x, f.y), (0, 0));
}
