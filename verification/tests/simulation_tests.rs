use game_of_life::position::Position;
use game_of_life::world::World;

fn alive(world: &World, x: usize, y: usize) -> bool {
    world.get_cell(Position::new(x, y)).unwrap().is_alive
}

#[test]
fn new_grid_has_only_dead_cells() {
    let world = World::new(3, 5);
    for x in 0..3 {
        for y in 0..5 {
            assert_eq!(false, alive(&world, x, y));
        }
    }
}

#[test]
fn single_seed_leaves_every_other_cell_dead() {
    let mut world = World::new(3, 5);
    world.initialize(vec![Position::new(2, 3)]);
    for x in 0..3 {
        for y in 0..5 {
            assert_eq!(x == 2 && y == 3, alive(&world, x, y));
        }
    }
}

#[test]
fn initialize_twice_with_same_seed_is_idempotent() {
    let seed = vec![Position::new(0, 1), Position::new(1, 1), Position::new(2, 1)];

    let mut once = World::new(3, 5);
    once.initialize(seed.clone());

    let mut twice = World::new(3, 5);
    twice.initialize(seed.clone());
    twice.initialize(seed);

    assert_eq!(once, twice);
}

#[test]
fn initialize_replaces_the_previous_seed() {
    let mut world = World::new(3, 5);
    world.initialize(vec![Position::new(0, 0)]);
    world.initialize(vec![Position::new(1, 1)]);
    assert_eq!(false, alive(&world, 0, 0));
    assert_eq!(true, alive(&world, 1, 1));
}

#[test]
fn out_of_bounds_seed_has_no_effect() {
    let mut world = World::new(3, 5);
    world.initialize(vec![Position::new(9, 9)]);
    for x in 0..3 {
        for y in 0..5 {
            assert_eq!(false, alive(&world, x, y));
        }
    }
}

#[test]
fn lone_cell_dies_and_nothing_is_born() {
    let mut world = World::new(3, 5);
    world.initialize(vec![Position::new(2, 3)]);
    let next = world.next_gen();
    for x in 0..3 {
        for y in 0..5 {
            assert_eq!(false, alive(&next, x, y));
        }
    }
}

#[test]
fn blinker_rotates_and_every_other_cell_stays_dead() {
    let mut world = World::new(3, 5);
    world.initialize(vec![Position::new(0, 1), Position::new(1, 1), Position::new(2, 1)]);
    let next = world.next_gen();
    for x in 0..3 {
        for y in 0..5 {
            let expected = x == 1 && (y == 0 || y == 1 || y == 2);
            assert_eq!(expected, alive(&next, x, y));
        }
    }
}

#[test]
fn overcrowded_center_of_a_plus_dies() {
    // The center of a plus shape is alive with four live neighbors.
    let mut world = World::new(3, 3);
    world.initialize(vec![
        Position::new(0, 1),
        Position::new(1, 0),
        Position::new(1, 1),
        Position::new(1, 2),
        Position::new(2, 1),
    ]);
    let next = world.next_gen();
    assert_eq!(false, alive(&next, 1, 1));
}

#[test]
fn dead_cell_with_three_live_neighbors_is_born_on_the_grid() {
    // (1, 0) and (1, 2) are dead with exactly three live neighbors.
    let mut world = World::new(3, 5);
    world.initialize(vec![Position::new(0, 1), Position::new(1, 1), Position::new(2, 1)]);
    let next = world.next_gen();
    assert_eq!(true, alive(&next, 1, 0));
    assert_eq!(true, alive(&next, 1, 2));
    // (0, 2) is dead with only two live neighbors and stays dead.
    assert_eq!(false, alive(&next, 0, 2));
}

#[test]
fn next_gen_leaves_the_receiver_unchanged() {
    let seed = vec![Position::new(0, 1), Position::new(1, 1), Position::new(2, 1)];

    let mut world = World::new(3, 5);
    world.initialize(seed.clone());

    let mut untouched = World::new(3, 5);
    untouched.initialize(seed);

    let _next = world.next_gen();

    assert_eq!(untouched, world);
}
