use game_of_life::cell::Cell;
use game_of_life::position::{Position, Size};
use game_of_life::world::World;

#[test]
fn should_create_world_with_given_dimension() {
    let (rows, columns) = (3, 5);
    let world = World::new(rows, columns);
    assert_eq!(Size { rows, columns }, world.size)
}

#[test]
fn should_create_dead_cells_by_default() {
    let (rows, columns) = (3, 5);
    let world = World::new(rows, columns);
    assert_eq!(false, world.get_cell(Position::new(2, 3)).unwrap().is_alive)
}

#[test]
fn should_initialize_with_alive_cells() {
    let (rows, columns) = (3, 5);
    let mut world = World::new(rows, columns);
    let position = Position::new(2, 3);

    world.initialize(vec![position]);

    assert_eq!(
        Some(Cell {
            position,
            is_alive: true
        }),
        world.get_cell(position)
    )
}

#[test]
fn should_return_next_generation_for_single_cell() {
    let (rows, columns) = (3, 5);
    let mut world = World::new(rows, columns);
    let position = Position::new(2, 3);

    world.initialize(vec![position]);

    let next_gen = world.next_gen();

    assert_eq!(false, next_gen.get_cell(position).unwrap().is_alive)
}

#[test]
fn should_return_next_generation_with_more_cells() {
    let (rows, columns) = (3, 5);
    let mut world = World::new(rows, columns);

    world.initialize(vec![
        Position::new(0, 1),
        Position::new(1, 1),
        Position::new(2, 1),
    ]);

    let next_gen = world.next_gen();

    assert_eq!(
        false,
        next_gen.get_cell(Position::new(0, 1),).unwrap().is_alive
    );
    assert_eq!(
        true,
        next_gen.get_cell(Position::new(1, 1),).unwrap().is_alive
    );
    assert_eq!(
        false,
        next_gen.get_cell(Position::new(2, 1),).unwrap().is_alive
    );
    assert_eq!(
        true,
        next_gen.get_cell(Position::new(1, 0),).unwrap().is_alive
    );
    assert_eq!(
        true,
        next_gen.get_cell(Position::new(1, 2),).unwrap().is_alive
    );
}

#[test]
fn get_cell_out_of_bounds_returns_none() {
    let world = World::new(3, 5);
    assert_eq!(None, world.get_cell(Position::new(3, 0)));
    assert_eq!(None, world.get_cell(Position::new(0, 5)));
    assert_eq!(None, world.get_cell(Position::new(7, 7)));
}

#[test]
fn zero_sized_grid_is_a_valid_empty_grid() {
    let world = World::new(0, 0);
    assert_eq!(None, world.get_cell(Position::new(0, 0)));

    let world = World::new(0, 5);
    assert_eq!(None, world.get_cell(Position::new(0, 0)));

    let world = World::new(3, 0);
    assert_eq!(None, world.get_cell(Position::new(0, 0)));
}
