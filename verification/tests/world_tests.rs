//! Tests for the world model: spawning, moving, building and turns.

use gridworld::entity::Entity;
use gridworld::game_map::GameMap;
use gridworld::position::MapPosition;
use gridworld::powerup::PowerupType;
use gridworld::tile::{Tile, TileType};
use gridworld::world_state::{MoveOutcome, WorldState, HEAL_AMOUNT, WORLD_HEIGHT, WORLD_WIDTH};

fn small_world(width: i32, height: i32) -> WorldState {
    WorldState { map: GameMap::new(width, height), entities: Vec::new(), next_entity_id: 0 }
}

fn spawn_at(ws: &mut WorldState, x: i32, y: i32) -> Option<u32> {
    ws.spawn_entity(
        MapPosition::new(x, y),
        '@',
        b"Unit".to_vec(),
        50,
        5,
        1,
        false,
    )
}

fn tile_at(ws: &WorldState, x: i32, y: i32) -> Tile {
    *ws.map.get_tile_i32(x, y).unwrap()
}

/// Every entity's tile must point back at it, and no two entities may
/// share a position.
fn assert_consistent(ws: &WorldState) {
    for e in &ws.entities {
        let t = tile_at(ws, e.position().x(), e.position().y());
        assert_eq!(t.entity_id(), Some(e.id()));
    }
    for i in 0..ws.entities.len() {
        for j in 0..ws.entities.len() {
            if i != j {
                assert_ne!(ws.entities[i].position(), ws.entities[j].position());
                assert_ne!(ws.entities[i].id(), ws.entities[j].id());
            }
        }
    }
}

#[test]
fn fresh_world_dimensions() {
    let ws = WorldState::new();
    assert_eq!(ws.map.width(), WORLD_WIDTH);
    assert_eq!(ws.map.height(), WORLD_HEIGHT);
    assert_eq!(ws.entities.len(), 0);
    assert_eq!(ws.next_entity_id, 0);
    let t = tile_at(&ws, 0, 0);
    assert_eq!(t.tile_type(), TileType::WalkableGeneric);
    assert_eq!(t.symbol(), '.');
    assert_eq!(t.entity_id(), None);
    assert!(!t.has_powerup());
}

#[test]
fn spawn_allocates_ids_in_order() {
    let mut ws = small_world(10, 10);
    assert_eq!(spawn_at(&mut ws, 1, 1), Some(0));
    assert_eq!(spawn_at(&mut ws, 2, 1), Some(1));
    assert_eq!(spawn_at(&mut ws, 3, 1), Some(2));
    assert_eq!(ws.next_entity_id, 3);
    assert_eq!(ws.entities.len(), 3);
    assert_consistent(&ws);
}

#[test]
fn spawn_starts_with_full_resources() {
    let mut ws = small_world(10, 10);
    let id = ws
        .spawn_entity(MapPosition::new(4, 4), 'E', b"Guard".to_vec(), 37, 9, 2, true)
        .unwrap();
    let e = ws.get_entity(id).unwrap();
    assert_eq!(e.health(), 37);
    assert_eq!(e.max_health(), 37);
    assert_eq!(e.energy(), 9);
    assert_eq!(e.max_energy(), 9);
    assert_eq!(e.team(), 2);
    assert_eq!(e.symbol(), 'E');
    assert!(e.is_ai());
    assert!(!e.is_selected());
    assert!(e.is_active());
    assert_eq!(e.stunned_turns(), 0);
    assert_eq!(e.name_bytes().as_slice(), b"Guard");
}

#[test]
fn spawn_truncates_long_names() {
    let mut ws = small_world(10, 10);
    let long = vec![b'x'; 100];
    let id = ws
        .spawn_entity(MapPosition::new(4, 4), 'E', long, 10, 1, 2, false)
        .unwrap();
    assert_eq!(ws.get_entity(id).unwrap().name_bytes().len(), 32);
}

#[test]
fn spawn_rejected_on_occupied_tile() {
    let mut ws = small_world(10, 10);
    assert_eq!(spawn_at(&mut ws, 5, 5), Some(0));
    let before = ws.clone();
    assert_eq!(spawn_at(&mut ws, 5, 5), None);
    assert_eq!(ws, before);
}

#[test]
fn spawn_rejected_on_wall_and_out_of_bounds() {
    let mut ws = small_world(10, 10);
    assert!(ws.build_wall(MapPosition::new(3, 3)));
    let before = ws.clone();
    assert_eq!(spawn_at(&mut ws, 3, 3), None);
    assert_eq!(spawn_at(&mut ws, -1, 0), None);
    assert_eq!(spawn_at(&mut ws, 10, 0), None);
    assert_eq!(ws, before);
}

#[test]
fn spawn_rejected_when_id_space_exhausted() {
    let mut ws = small_world(4, 4);
    ws.next_entity_id = u32::MAX;
    let before = ws.clone();
    assert_eq!(spawn_at(&mut ws, 1, 1), None);
    assert_eq!(ws, before);
}

#[test]
fn move_to_standable_tile_updates_both_tiles() {
    let mut ws = small_world(10, 10);
    let id = spawn_at(&mut ws, 5, 5).unwrap();
    let outcome = ws.move_entity(id, MapPosition::new(5, 6));
    assert_eq!(outcome, MoveOutcome::Moved);
    assert_eq!(tile_at(&ws, 5, 5).entity_id(), None);
    assert_eq!(tile_at(&ws, 5, 6).entity_id(), Some(id));
    assert_eq!(ws.get_entity(id).unwrap().position(), MapPosition::new(5, 6));
    assert_consistent(&ws);
}

#[test]
fn move_blocked_leaves_state_unchanged() {
    let mut ws = small_world(10, 10);
    let a = spawn_at(&mut ws, 5, 5).unwrap();
    let _b = spawn_at(&mut ws, 5, 6).unwrap();
    assert!(ws.build_wall(MapPosition::new(5, 4)));
    let before = ws.clone();
    // Occupied, solid, out of bounds, and the mover's own tile.
    assert_eq!(ws.move_entity(a, MapPosition::new(5, 6)), MoveOutcome::Blocked);
    assert_eq!(ws.move_entity(a, MapPosition::new(5, 4)), MoveOutcome::Blocked);
    assert_eq!(ws.move_entity(a, MapPosition::new(-1, 5)), MoveOutcome::Blocked);
    assert_eq!(ws.move_entity(a, MapPosition::new(5, 5)), MoveOutcome::Blocked);
    assert_eq!(ws, before);
}

#[test]
fn move_collects_pickup_and_heals_once() {
    let mut ws = small_world(10, 10);
    let id = spawn_at(&mut ws, 5, 5).unwrap();
    ws.entities[0].take_damage(40);
    assert_eq!(ws.entities[0].health(), 10);
    let idx = (6 * 10 + 5) as usize;
    ws.map.tiles[idx].set_powerup(PowerupType::HealingPotion);
    let outcome = ws.move_entity(id, MapPosition::new(5, 6));
    assert_eq!(outcome, MoveOutcome::MovedWithPickup(PowerupType::HealingPotion));
    assert_eq!(ws.get_entity(id).unwrap().health(), 10 + HEAL_AMOUNT);
    assert!(!tile_at(&ws, 5, 6).has_powerup());
    assert_consistent(&ws);
}

#[test]
fn move_heal_caps_at_max_health() {
    let mut ws = small_world(10, 10);
    let id = spawn_at(&mut ws, 5, 5).unwrap();
    ws.entities[0].take_damage(5);
    let idx = (6 * 10 + 5) as usize;
    ws.map.tiles[idx].set_powerup(PowerupType::HealingPotion);
    ws.move_entity(id, MapPosition::new(5, 6));
    assert_eq!(ws.get_entity(id).unwrap().health(), 50);
}

#[test]
fn move_removes_other_pickups_without_effect() {
    let mut ws = small_world(10, 10);
    let id = spawn_at(&mut ws, 5, 5).unwrap();
    ws.entities[0].take_damage(40);
    let idx = (6 * 10 + 5) as usize;
    ws.map.tiles[idx].set_powerup(PowerupType::SpeedBoost);
    let outcome = ws.move_entity(id, MapPosition::new(5, 6));
    assert_eq!(outcome, MoveOutcome::MovedWithPickup(PowerupType::SpeedBoost));
    assert_eq!(ws.get_entity(id).unwrap().health(), 10);
    assert!(!tile_at(&ws, 5, 6).has_powerup());
}

#[test]
fn build_wall_clears_occupant_and_pickup() {
    let mut ws = small_world(10, 10);
    let id = spawn_at(&mut ws, 2, 2).unwrap();
    let idx = (2 * 10 + 2) as usize;
    ws.map.tiles[idx].set_powerup(PowerupType::WallBreaker);
    assert!(ws.build_wall(MapPosition::new(2, 2)));
    let t = tile_at(&ws, 2, 2);
    assert_eq!(t.tile_type(), TileType::Wall);
    assert_eq!(t.entity_id(), None);
    assert!(!t.has_powerup());
    assert_eq!(t.symbol(), '\u{2588}');
    assert!(ws.get_entity(id).is_none());
    assert_eq!(ws.entities.len(), 0);
}

#[test]
fn build_wall_fails_on_wall_and_out_of_bounds() {
    let mut ws = small_world(10, 10);
    assert!(ws.build_wall(MapPosition::new(2, 2)));
    let before = ws.clone();
    assert!(!ws.build_wall(MapPosition::new(2, 2)));
    assert!(!ws.build_wall(MapPosition::new(99, 99)));
    assert_eq!(ws, before);
}

#[test]
fn build_floor_reopens_a_wall() {
    let mut ws = small_world(10, 10);
    assert!(ws.build_wall(MapPosition::new(2, 2)));
    ws.build_floor(MapPosition::new(2, 2));
    let t = tile_at(&ws, 2, 2);
    assert_eq!(t.tile_type(), TileType::WalkableGeneric);
    assert_eq!(t.symbol(), '.');
    assert_eq!(t.entity_id(), None);
}

#[test]
fn build_floor_removes_standing_entity() {
    let mut ws = small_world(10, 10);
    spawn_at(&mut ws, 2, 2).unwrap();
    ws.build_floor(MapPosition::new(2, 2));
    assert_eq!(ws.entities.len(), 0);
    assert_eq!(tile_at(&ws, 2, 2).entity_id(), None);
}

#[test]
fn advance_turn_counts_stun_down_and_refills() {
    let mut ws = small_world(10, 10);
    spawn_at(&mut ws, 1, 1).unwrap();
    spawn_at(&mut ws, 2, 1).unwrap();
    ws.entities[0].set_stunned(3);
    assert!(ws.entities[1].consume_energy(2));
    assert_eq!(ws.entities[1].energy(), 3);

    ws.advance_turn();
    assert_eq!(ws.entities[0].stunned_turns(), 2);
    assert!(ws.entities[0].is_stunned());
    assert_eq!(ws.entities[1].stunned_turns(), 0);
    assert_eq!(ws.entities[1].energy(), 5);

    ws.advance_turn();
    ws.advance_turn();
    assert_eq!(ws.entities[0].stunned_turns(), 0);
    // A further turn keeps the counter at zero: it never goes negative.
    ws.advance_turn();
    assert_eq!(ws.entities[0].stunned_turns(), 0);
    assert_eq!(ws.entities[0].energy(), 5);
}

#[test]
fn stunned_entity_keeps_energy_until_recovered() {
    let mut e = Entity::new(7, 'e', b"Sleeper".to_vec(), MapPosition::new(0, 0), 1, 10, 8);
    assert!(e.consume_energy(6));
    e.set_stunned(1);
    assert!(!e.can_act(1));
    assert!(!e.consume_energy(1));
    e.reduce_stun();
    e.refill_energy();
    assert_eq!(e.stunned_turns(), 0);
    assert_eq!(e.energy(), 8);
}

#[test]
fn dead_entity_is_immune_to_healing() {
    let mut e = Entity::new(1, 'e', b"Goner".to_vec(), MapPosition::new(0, 0), 1, 10, 1);
    assert!(e.take_damage(10));
    assert!(e.is_dead());
    e.heal(50);
    assert_eq!(e.health(), 0);
    assert_eq!(e.overheal(50), 0);
    assert_eq!(e.health(), 0);
}

#[test]
fn overheal_returns_the_excess() {
    let mut e = Entity::new(1, 'e', b"Tank".to_vec(), MapPosition::new(0, 0), 1, 30, 1);
    e.take_damage(10);
    assert_eq!(e.overheal(25), 15);
    assert_eq!(e.health(), 30);
    assert_eq!(e.overheal(3), 3);
    e.take_damage(8);
    assert_eq!(e.overheal(5), 0);
    assert_eq!(e.health(), 27);
}

#[test]
fn take_damage_saturates_at_zero() {
    let mut e = Entity::new(1, 'e', b"Frail".to_vec(), MapPosition::new(0, 0), 1, 5, 1);
    assert!(e.take_damage(100));
    assert_eq!(e.health(), 0);
}

#[test]
fn get_entity_id_at_reads_the_tile() {
    let mut ws = small_world(10, 10);
    let id = spawn_at(&mut ws, 5, 5).unwrap();
    assert_eq!(ws.get_entity_id_at(MapPosition::new(5, 5)), Some(id));
    assert_eq!(ws.get_entity_id_at(MapPosition::new(4, 5)), None);
    assert_eq!(ws.get_entity_id_at(MapPosition::new(-3, 5)), None);
}

#[test]
fn get_entity_absent_id_is_not_found() {
    let ws = small_world(4, 4);
    assert!(ws.get_entity(42).is_none());
}

#[test]
fn mutable_tile_access_edits_in_place() {
    let mut map = GameMap::new(6, 6);
    assert!(map.get_tile_mut_i32(9, 0).is_none());
    let t = map.get_tile_mut_i32(3, 2).unwrap();
    t.set_powerup(PowerupType::HealingPotion);
    assert!(map.get_tile_i32(3, 2).unwrap().has_powerup());
    let t2 = map.get_tile_mut(&MapPosition::new(3, 2)).unwrap();
    t2.take_powerup();
    assert!(!map.get_tile_i32(3, 2).unwrap().has_powerup());
}

#[test]
fn mutable_entity_access_edits_in_place() {
    let mut ws = small_world(6, 6);
    let id = spawn_at(&mut ws, 1, 1).unwrap();
    assert!(ws.get_entity_mut(9).is_none());
    let e = ws.get_entity_mut(id).unwrap();
    e.set_team(4);
    assert_eq!(ws.get_entity(id).unwrap().team(), 4);
}

#[test]
fn world_selection_marks_exactly_one() {
    let mut ws = small_world(6, 6);
    let a = spawn_at(&mut ws, 1, 1).unwrap();
    let b = spawn_at(&mut ws, 2, 1).unwrap();
    ws.set_entity_selected(a, true);
    assert!(ws.get_entity(a).unwrap().is_selected());
    assert!(!ws.get_entity(b).unwrap().is_selected());
    ws.set_entity_selected(a, false);
    ws.set_entity_selected(b, true);
    assert!(!ws.get_entity(a).unwrap().is_selected());
    assert!(ws.get_entity(b).unwrap().is_selected());
    // An absent identity changes nothing.
    ws.set_entity_selected(77, true);
    assert!(ws.get_entity(b).unwrap().is_selected());
}

#[test]
fn scenario_spawn_move_wall() {
    let mut ws = small_world(10, 10);

    let a = spawn_at(&mut ws, 5, 5);
    assert_eq!(a, Some(0));

    // A second spawn on the same tile fails: the tile is not standable.
    assert_eq!(spawn_at(&mut ws, 5, 5), None);

    let outcome = ws.move_entity(0, MapPosition::new(5, 6));
    assert_eq!(outcome, MoveOutcome::Moved);
    assert_eq!(tile_at(&ws, 5, 5).entity_id(), None);
    assert_eq!(tile_at(&ws, 5, 6).entity_id(), Some(0));

    // The vacated tile is empty and walkable again, so a wall goes up.
    assert!(ws.build_wall(MapPosition::new(5, 5)));

    // Building over the occupied tile also succeeds through the world,
    // which removes the actor first.
    assert!(ws.build_wall(MapPosition::new(5, 6)));
    assert!(ws.get_entity(0).is_none());
    assert_eq!(ws.entities.len(), 0);
    assert_consistent(&ws);
}
