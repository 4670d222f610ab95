use game_of_life::cell::Cell;
use game_of_life::strategy::{alive_cell, dead_cell};

#[test]
fn dead_cell_should_stay_dead_without_any_living_neighbor() {
    let cell = Cell::new(3, 4);
    let next = cell.next_state(vec![]);
    assert_eq!(false, next.is_alive);
}

#[test]
fn alive_cell_should_become_dead_with_less_than_2_neighbors() {
    let cell = alive_cell();
    let next = cell.next_state(vec![alive_cell()]);
    assert_eq!(false, next.is_alive);
}

#[test]
fn alive_cell_should_become_dead_with_more_than_3_neighbors() {
    let cell = alive_cell();
    let next = cell.next_state(vec![
        alive_cell(),
        alive_cell(),
        alive_cell(),
        alive_cell(),
        dead_cell(),
    ]);
    assert_eq!(false, next.is_alive);
}

#[test]
fn alive_cell_should_stay_alive_with_3_neighbors() {
    let cell = alive_cell();
    let next = cell.next_state(vec![alive_cell(), alive_cell(), alive_cell(), dead_cell()]);
    assert_eq!(true, next.is_alive);
}

#[test]
fn alive_cell_should_stay_alive_with_2_neighbors() {
    let cell = alive_cell();
    let next = cell.next_state(vec![alive_cell(), alive_cell(), dead_cell()]);
    assert_eq!(true, next.is_alive);
}

#[test]
fn dead_cell_should_become_alive_with_exact_3_neighbors() {
    let cell = dead_cell();
    let next = cell.next_state(vec![alive_cell(), alive_cell(), alive_cell(), dead_cell()]);
    assert_eq!(true, next.is_alive);
}

#[test]
fn dead_cell_should_stay_dead_with_2_neighbors() {
    let cell = dead_cell();
    let next = cell.next_state(vec![alive_cell(), alive_cell(), dead_cell()]);
    assert_eq!(false, next.is_alive);
}

#[test]
fn dead_cell_should_stay_dead_with_4_neighbors() {
    let cell = dead_cell();
    let next = cell.next_state(vec![alive_cell(), alive_cell(), alive_cell(), alive_cell()]);
    assert_eq!(false, next.is_alive);
}

#[test]
fn next_state_keeps_the_position() {
    let cell = Cell::new(3, 4);
    let next = cell.next_state(vec![alive_cell(), alive_cell(), alive_cell()]);
    assert_eq!(cell.position, next.position);
    assert_eq!(true, next.is_alive);
}
