use game_of_life::cell::Cell;

#[test]
fn cell_should_have_position() {
    let cell = Cell::new(2, 3);
    assert_eq!(2, cell.position.x);
    assert_eq!(3, cell.position.y);
}

#[test]
fn cell_should_be_in_dead_state_initially() {
    let cell = Cell::new(2, 3);
    assert_eq!(false, cell.is_alive);
}
