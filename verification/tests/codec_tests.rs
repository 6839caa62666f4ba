//! Tests for the snapshot codec: the round trip is lossless and malformed
//! bytes are rejected.

use gridworld::game_map::GameMap;
use gridworld::position::MapPosition;
use gridworld::powerup::PowerupType;
use gridworld::world_state::WorldState;

fn busy_world() -> WorldState {
    let mut ws = WorldState {
        map: GameMap::new(12, 7),
        entities: Vec::new(),
        next_entity_id: 0,
    };
    ws.spawn_entity(MapPosition::new(3, 2), '@', b"Player".to_vec(), 100, 5, 1, false)
        .unwrap();
    ws.spawn_entity(MapPosition::new(8, 6), 'E', b"Editor Unit".to_vec(), 50, 3, 2, true)
        .unwrap();
    ws.build_wall(MapPosition::new(0, 0));
    ws.build_wall(MapPosition::new(11, 6));
    let idx = (4 * 12 + 4) as usize;
    ws.map.tiles[idx].set_powerup(PowerupType::HealingPotion);
    let idx2 = (5 * 12 + 4) as usize;
    ws.map.tiles[idx2].set_powerup(PowerupType::WallBreaker);
    ws.entities[0].take_damage(17);
    ws.entities[1].set_stunned(2);
    ws.entities[1].set_selected(true);
    ws
}

#[test]
fn round_trip_preserves_everything() {
    let ws = busy_world();
    let bytes = ws.save();
    let loaded = WorldState::load(&bytes).unwrap();
    assert_eq!(loaded, ws);
    assert_eq!(loaded.map.width(), 12);
    assert_eq!(loaded.map.height(), 7);
    for y in 0..7 {
        for x in 0..12 {
            let a = ws.map.get_tile_i32(x, y).unwrap();
            let b = loaded.map.get_tile_i32(x, y).unwrap();
            assert_eq!(a.tile_type(), b.tile_type());
            assert_eq!(a.entity_id(), b.entity_id());
            assert_eq!(a.symbol(), b.symbol());
        }
    }
    assert_eq!(loaded.entities.len(), 2);
    let e = loaded.get_entity(0).unwrap();
    assert_eq!(e.symbol(), '@');
    assert_eq!(e.name_bytes().as_slice(), b"Player");
    assert_eq!(e.health(), 83);
    assert_eq!(e.max_health(), 100);
    assert_eq!(e.position(), MapPosition::new(3, 2));
    let g = loaded.get_entity(1).unwrap();
    assert_eq!(g.stunned_turns(), 2);
    assert!(g.is_selected());
    assert!(g.is_ai());
    assert_eq!(loaded.next_entity_id, 2);
}

#[test]
fn round_trip_of_an_empty_world() {
    let ws = WorldState::new();
    let loaded = WorldState::load(&ws.save()).unwrap();
    assert_eq!(loaded, ws);
}

#[test]
fn round_trip_keeps_unicode_symbols() {
    let mut ws = WorldState {
        map: GameMap::new(4, 4),
        entities: Vec::new(),
        next_entity_id: 0,
    };
    ws.spawn_entity(MapPosition::new(1, 1), '\u{263a}', b"Smile".to_vec(), 9, 9, 3, false)
        .unwrap();
    let loaded = WorldState::load(&ws.save()).unwrap();
    assert_eq!(loaded.get_entity(0).unwrap().symbol(), '\u{263a}');
    assert_eq!(loaded, ws);
}

#[test]
fn load_rejects_garbage() {
    assert!(WorldState::load(&vec![]).is_none());
    assert!(WorldState::load(&vec![1, 2, 3]).is_none());
    assert!(WorldState::load(&vec![0xff; 64]).is_none());
}

#[test]
fn load_rejects_truncation_and_trailing_bytes() {
    let ws = busy_world();
    let bytes = ws.save();

    let mut short = bytes.clone();
    short.pop();
    assert!(WorldState::load(&short).is_none());

    let mut long = bytes.clone();
    long.push(0);
    assert!(WorldState::load(&long).is_none());

    assert!(WorldState::load(&bytes).is_some());
}

#[test]
fn load_rejects_zero_dimensions() {
    // A snapshot that claims a zero-width map: width 0, height 1.
    let mut bytes = vec![0u8, 0, 0, 0];
    bytes.extend_from_slice(&[1, 0, 0, 0]);
    assert!(WorldState::load(&bytes).is_none());
}

#[test]
fn load_rejects_inconsistent_occupant() {
    // Corrupt a valid snapshot: mark the tile at (0, 0) of an empty world
    // as occupied by actor 9. Structurally fine, but no actor backs it, so
    // the world invariant rejects it.
    let ws = WorldState {
        map: GameMap::new(2, 2),
        entities: Vec::new(),
        next_entity_id: 0,
    };
    let mut bytes = ws.save();
    // Layout: width(4) height(4), then tile 0 as kind(4) flag(4) pickup(4).
    // Rewrite tile 0 from "no occupant" to "occupant 9": the flag word is
    // at offset 12, and the pickup word moves into the inserted id word.
    assert_eq!(bytes[12], 0);
    bytes[12] = 1;
    bytes.splice(16..16, [9u8, 0, 0, 0]);
    assert!(WorldState::load(&bytes).is_none());
}

#[test]
fn load_rejects_occupied_wall() {
    // A wall tile carrying an occupant violates the tile invariant.
    let ws = WorldState {
        map: GameMap::new(1, 1),
        entities: Vec::new(),
        next_entity_id: 0,
    };
    let mut bytes = ws.save();
    // Tile 0 starts at offset 8: kind word.
    bytes[8] = 1;
    bytes[12] = 1;
    bytes.splice(16..16, [0u8, 0, 0, 0]);
    assert!(WorldState::load(&bytes).is_none());
}

#[test]
fn load_rejects_bad_codes() {
    let ws = WorldState {
        map: GameMap::new(1, 1),
        entities: Vec::new(),
        next_entity_id: 0,
    };
    let mut kind_bad = ws.save();
    kind_bad[8] = 7;
    assert!(WorldState::load(&kind_bad).is_none());

    let mut pickup_bad = ws.save();
    pickup_bad[16] = 9;
    assert!(WorldState::load(&pickup_bad).is_none());
}

#[test]
fn load_rejects_bad_occupant_flag() {
    let ws = WorldState {
        map: GameMap::new(1, 1),
        entities: Vec::new(),
        next_entity_id: 0,
    };
    let mut bytes = ws.save();
    // The occupant presence flag of tile 0 sits at offset 12 and may only
    // be zero or one.
    bytes[12] = 2;
    assert!(WorldState::load(&bytes).is_none());
}

#[test]
fn load_rejects_surrogate_symbol() {
    let mut ws = WorldState {
        map: GameMap::new(1, 2),
        entities: Vec::new(),
        next_entity_id: 0,
    };
    ws.spawn_entity(MapPosition::new(0, 0), 'a', b"S".to_vec(), 1, 1, 1, false)
        .unwrap();
    let mut bytes = ws.save();
    // Layout: header 8, two tiles (16 occupied + 12 empty), count 4; the
    // actor record starts at 40, and its glyph code word at 44. 0xD800 is
    // a surrogate, not a Unicode scalar value.
    assert_eq!(&bytes[44..48], &[b'a' as u8, 0, 0, 0]);
    bytes[44] = 0x00;
    bytes[45] = 0xd8;
    assert!(WorldState::load(&bytes).is_none());
}

#[test]
fn powerup_ids_are_stable() {
    assert_eq!(PowerupType::NoPowerup.to_id(), 0);
    assert_eq!(PowerupType::HealingPotion.to_id(), 1);
    assert_eq!(PowerupType::SpeedBoost.to_id(), 2);
    assert_eq!(PowerupType::WallBreaker.to_id(), 3);
    assert!(!PowerupType::NoPowerup.is_some());
    assert!(PowerupType::HealingPotion.is_some());
    let mut p = PowerupType::SpeedBoost;
    assert_eq!(p.take(), PowerupType::SpeedBoost);
    assert_eq!(p, PowerupType::NoPowerup);
}
