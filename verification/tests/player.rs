use cagario::cells::{spawn_npc_cell, Cell};
use cagario::player::{
    limit_coordinate, limit_player_movement, update_player_cell_size, INITIAL_PLAYER_SIZE,
};
use cagario::registry::{Registry, SimulationEntity};
use cagario::FIELD_SIZE;

#[test]
fn initial_player_size_is_one_unit() {
    assert_eq!(INITIAL_PLAYER_SIZE, 1000);
}

#[test]
fn coordinates_are_held_within_half_the_field() {
    assert_eq!(limit_coordinate(0), 0);
    assert_eq!(limit_coordinate(450_000), 450_000);
    assert_eq!(limit_coordinate(450_001), 450_000);
    assert_eq!(limit_coordinate(-450_000), -450_000);
    assert_eq!(limit_coordinate(-450_001), -450_000);
    assert_eq!(limit_coordinate(i64::MAX), FIELD_SIZE / 2);
    assert_eq!(limit_coordinate(i64::MIN), -(FIELD_SIZE / 2));
}

#[test]
fn players_are_brought_back_to_the_edge() {
    let mut registry = Registry::new();
    let inside = registry.register_player(1);
    let outside = registry.register_player(2);
    let body = registry.get(inside).unwrap();
    registry.put(SimulationEntity { translation: [100, 5, -200], ..body });
    let body = registry.get(outside).unwrap();
    registry.put(SimulationEntity { translation: [460_000, 999_999, -470_000], ..body });
    limit_player_movement(&mut registry);
    assert_eq!(registry.get(inside).unwrap().translation, [100, 5, -200]);
    assert_eq!(registry.get(outside).unwrap().translation, [450_000, 999_999, -450_000]);
}

#[test]
fn cells_that_no_player_steers_are_not_limited() {
    let mut registry = Registry::new();
    spawn_npc_cell(&mut registry, 800_000, -800_000, 1000);
    limit_player_movement(&mut registry);
    assert_eq!(registry.get(0).unwrap().translation, [800_000, -500, -800_000]);
}

#[test]
fn players_are_drawn_at_a_quarter_of_their_size() {
    let mut registry = Registry::new();
    let small = registry.register_player(1);
    let large = registry.register_player(2);
    let body = registry.get(large).unwrap();
    registry.put(SimulationEntity { cell: Cell { size: 3503 }, ..body });
    spawn_npc_cell(&mut registry, 0, 0, 1200);
    update_player_cell_size(&mut registry);
    assert_eq!(registry.get(small).unwrap().scale, [250, 250, 250]);
    assert_eq!(registry.get(large).unwrap().scale, [875, 875, 875]);
    assert_eq!(registry.get(2).unwrap().scale, [1000, 1000, 1000]);
}
