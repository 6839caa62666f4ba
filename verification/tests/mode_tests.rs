//! Tests for the editor, the simulation mode and the top-level state
//! machine.

use gridworld::actions::{Action, AppEffect, BuildTool, MenuSelection, Notification};
use gridworld::application::{AppState, ApplicationState};
use gridworld::editor::EditorMode;
use gridworld::game_map::GameMap;
use gridworld::game_mode::GameMode;
use gridworld::position::MapPosition;
use gridworld::powerup::PowerupType;
use gridworld::tile::TileType;
use gridworld::world_state::WorldState;

fn small_game(width: i32, height: i32) -> GameMode {
    GameMode::new(WorldState {
        map: GameMap::new(width, height),
        entities: Vec::new(),
        next_entity_id: 0,
    })
}

#[test]
fn editor_tool_cycles_round_robin() {
    let mut ed = EditorMode::new();
    assert_eq!(ed.current_tool, BuildTool::Wall);
    ed.cycle_tool();
    assert_eq!(ed.current_tool, BuildTool::Floor);
    ed.cycle_tool();
    assert_eq!(ed.current_tool, BuildTool::Unit);
    ed.cycle_tool();
    assert_eq!(ed.current_tool, BuildTool::Wall);
    assert_eq!(ed.status, Notification::ToolChanged(BuildTool::Wall));
}

#[test]
fn editor_wall_tool_builds_walls() {
    let mut ed = EditorMode::new();
    let pos = MapPosition::new(3, 3);
    ed.handle_click(pos);
    let t = ed.world_state.map.get_tile(&pos).unwrap();
    assert_eq!(t.tile_type(), TileType::Wall);
    assert_eq!(ed.status, Notification::WallBuilt(pos));

    // A second click on the same tile fails and keeps the old message.
    ed.status = Notification::EditorHelp;
    ed.handle_click(pos);
    assert_eq!(ed.status, Notification::EditorHelp);
}

#[test]
fn editor_floor_tool_clears() {
    let mut ed = EditorMode::new();
    let pos = MapPosition::new(2, 2);
    ed.handle_click(pos);
    ed.cycle_tool();
    ed.handle_click(pos);
    let t = ed.world_state.map.get_tile(&pos).unwrap();
    assert_eq!(t.tile_type(), TileType::WalkableGeneric);
    assert_eq!(ed.status, Notification::FloorCleared(pos));
}

#[test]
fn editor_clicks_out_of_bounds_are_harmless() {
    let mut ed = EditorMode::new();
    let outside = MapPosition::new(-5, 400);
    let before = ed.world_state.clone();

    // The wall tool fails silently and keeps the old message.
    ed.handle_click(outside);
    assert_eq!(ed.status, Notification::EditorHelp);
    assert_eq!(ed.world_state, before);

    // The floor tool still reports, but nothing changes.
    ed.cycle_tool();
    ed.handle_click(outside);
    assert_eq!(ed.status, Notification::FloorCleared(outside));
    assert_eq!(ed.world_state, before);

    // The unit tool reports a blocked tile.
    ed.cycle_tool();
    ed.handle_click(outside);
    assert_eq!(ed.status, Notification::SpawnBlocked);
    assert_eq!(ed.world_state, before);
}

#[test]
fn editor_unit_tool_spawns_defaults() {
    let mut ed = EditorMode::new();
    ed.cycle_tool();
    ed.cycle_tool();
    assert_eq!(ed.current_tool, BuildTool::Unit);
    let pos = MapPosition::new(4, 4);
    ed.handle_click(pos);
    assert_eq!(ed.status, Notification::UnitSpawned(0));
    let e = ed.world_state.get_entity(0).unwrap();
    assert_eq!(e.symbol(), 'E');
    assert_eq!(e.team(), 2);
    assert_eq!(e.max_health(), 50);
    assert_eq!(e.max_energy(), 3);
    assert_eq!(e.name_bytes().as_slice(), b"Editor Unit");
    assert!(!e.is_ai());

    // Spawning again on the occupied tile is blocked.
    ed.handle_click(pos);
    assert_eq!(ed.status, Notification::SpawnBlocked);
    assert_eq!(ed.world_state.entities.len(), 1);
}

#[test]
fn editor_menu_rows_select_tools_and_save() {
    let mut ed = EditorMode::new();
    assert_eq!(ed.handle_menu_click(70, 4), AppEffect::NoEffect);
    assert_eq!(ed.current_tool, BuildTool::Floor);
    assert_eq!(ed.handle_menu_click(70, 5), AppEffect::NoEffect);
    assert_eq!(ed.current_tool, BuildTool::Unit);
    assert_eq!(ed.handle_menu_click(70, 3), AppEffect::NoEffect);
    assert_eq!(ed.current_tool, BuildTool::Wall);
    assert_eq!(ed.handle_menu_click(70, 8), AppEffect::SaveWorld);
    assert_eq!(ed.handle_menu_click(70, 11), AppEffect::NoEffect);
    assert_eq!(ed.status, Notification::MenuClickIgnored(70, 11));

    ed.note_save_result(true);
    assert_eq!(ed.status, Notification::SavedOk);
    ed.note_save_result(false);
    assert_eq!(ed.status, Notification::SaveFailed);
}

#[test]
fn game_click_selects_and_deselects() {
    let mut gm = small_game(8, 8);
    let a = gm
        .world_state
        .spawn_entity(MapPosition::new(1, 1), '@', b"A".to_vec(), 10, 5, 1, false)
        .unwrap();
    let b = gm
        .world_state
        .spawn_entity(MapPosition::new(2, 1), 'E', b"B".to_vec(), 10, 5, 2, false)
        .unwrap();

    // No selection + empty tile: still nothing selected.
    gm.handle_click(MapPosition::new(5, 5));
    assert_eq!(gm.selected_entity_id, None);
    assert_eq!(gm.status, Notification::SelectionCleared);

    // No selection + occupied tile: select it.
    gm.handle_click(MapPosition::new(1, 1));
    assert_eq!(gm.selected_entity_id, Some(a));
    assert!(gm.world_state.get_entity(a).unwrap().is_selected());
    assert_eq!(gm.status, Notification::UnitSelected(a));

    // Selection + other occupied tile: switch, no move.
    gm.handle_click(MapPosition::new(2, 1));
    assert_eq!(gm.selected_entity_id, Some(b));
    assert!(!gm.world_state.get_entity(a).unwrap().is_selected());
    assert!(gm.world_state.get_entity(b).unwrap().is_selected());
    assert_eq!(gm.world_state.get_entity(a).unwrap().position(), MapPosition::new(1, 1));
}

#[test]
fn game_click_moves_selected_entity() {
    let mut gm = small_game(8, 8);
    let a = gm
        .world_state
        .spawn_entity(MapPosition::new(1, 1), '@', b"A".to_vec(), 10, 5, 1, false)
        .unwrap();
    gm.handle_click(MapPosition::new(1, 1));
    gm.handle_click(MapPosition::new(4, 4));
    assert_eq!(gm.status, Notification::UnitMoved);
    assert_eq!(gm.world_state.get_entity(a).unwrap().position(), MapPosition::new(4, 4));
    // The selection survives the move.
    assert_eq!(gm.selected_entity_id, Some(a));

    // Clicking the entity's own tile attempts a move onto itself, which
    // is blocked because the tile is occupied.
    gm.handle_click(MapPosition::new(4, 4));
    assert_eq!(gm.status, Notification::MoveBlocked);
}

#[test]
fn game_click_move_collects_pickup() {
    let mut gm = small_game(8, 8);
    gm.world_state
        .spawn_entity(MapPosition::new(1, 1), '@', b"A".to_vec(), 10, 5, 1, false)
        .unwrap();
    let idx = (2 * 8 + 1) as usize;
    gm.world_state.map.tiles[idx].set_powerup(PowerupType::HealingPotion);
    gm.handle_click(MapPosition::new(1, 1));
    gm.handle_click(MapPosition::new(1, 2));
    assert_eq!(gm.status, Notification::UnitMovedWithPickup(PowerupType::HealingPotion));
}

#[test]
fn game_menu_clicks_end_turn_and_deselect() {
    let mut gm = small_game(8, 8);
    let a = gm
        .world_state
        .spawn_entity(MapPosition::new(1, 1), '@', b"A".to_vec(), 10, 5, 1, false)
        .unwrap();
    gm.world_state.entities[0].set_stunned(2);
    gm.handle_menu_click(70, 3);
    assert_eq!(gm.status, Notification::TurnEnded);
    assert_eq!(gm.world_state.entities[0].stunned_turns(), 1);

    gm.handle_click(MapPosition::new(1, 1));
    assert_eq!(gm.selected_entity_id, Some(a));
    gm.handle_menu_click(70, 4);
    assert_eq!(gm.selected_entity_id, None);
    assert!(!gm.world_state.get_entity(a).unwrap().is_selected());

    gm.handle_menu_click(70, 9);
    assert_eq!(gm.status, Notification::MenuClickIgnored(70, 9));
}

#[test]
fn app_starts_in_menu_and_quits() {
    let mut app = ApplicationState::new();
    assert!(matches!(app.state, AppState::Menu));
    assert_eq!(app.apply_action(Action::QuitApp), AppEffect::NoEffect);
    assert!(matches!(app.state, AppState::Exiting));
    // Exiting is terminal: everything else is ignored.
    app.apply_action(Action::BackToMenu);
    assert!(matches!(app.state, AppState::Exiting));
}

#[test]
fn app_enters_editor_and_returns_to_menu() {
    let mut app = ApplicationState::new();
    app.apply_action(Action::MenuSelect(MenuSelection::EnterBuildMode));
    match &app.state {
        AppState::Editor(ed) => {
            assert_eq!(ed.current_tool, BuildTool::Wall);
            assert_eq!(ed.world_state.entities.len(), 0);
        },
        _ => panic!("expected the editor"),
    }
    app.apply_action(Action::BackToMenu);
    assert!(matches!(app.state, AppState::Menu));
}

#[test]
fn app_new_game_spawns_the_player() {
    let mut app = ApplicationState::new();
    app.apply_action(Action::MenuSelect(MenuSelection::EnterPlayMode));
    match &app.state {
        AppState::Simulation(gm) => {
            let p = gm.world_state.get_entity(0).unwrap();
            assert_eq!(p.position(), MapPosition::new(10, 10));
            assert_eq!(p.symbol(), '@');
            assert_eq!(p.team(), 1);
            assert_eq!(p.max_health(), 100);
            assert_eq!(p.max_energy(), 5);
            assert_eq!(p.name_bytes().as_slice(), b"Player");
            assert_eq!(gm.selected_entity_id, None);
        },
        _ => panic!("expected the simulation"),
    }
}

#[test]
fn app_routes_commands_to_the_active_mode() {
    let mut app = ApplicationState::new();
    app.apply_action(Action::MenuSelect(MenuSelection::EnterBuildMode));
    app.apply_action(Action::CycleBuildTool);
    app.apply_action(Action::EditorClick { pos: MapPosition::new(1, 1) });
    match &app.state {
        AppState::Editor(ed) => {
            assert_eq!(ed.current_tool, BuildTool::Floor);
            assert_eq!(ed.status, Notification::FloorCleared(MapPosition::new(1, 1)));
        },
        _ => panic!("expected the editor"),
    }
    assert_eq!(app.apply_action(Action::SaveMap), AppEffect::SaveWorld);
    app.note_save_result(true);
    match &app.state {
        AppState::Editor(ed) => assert_eq!(ed.status, Notification::SavedOk),
        _ => panic!("expected the editor"),
    }
}

#[test]
fn app_ignores_commands_invalid_for_the_state() {
    let mut app = ApplicationState::new();
    // Game and editor commands mean nothing in the menu.
    assert_eq!(
        app.apply_action(Action::GameClick { pos: MapPosition::new(1, 1) }),
        AppEffect::NoEffect,
    );
    assert_eq!(app.apply_action(Action::CycleBuildTool), AppEffect::NoEffect);
    assert!(matches!(app.state, AppState::Menu));

    // Menu commands mean nothing in the editor.
    app.apply_action(Action::MenuSelect(MenuSelection::EnterBuildMode));
    app.apply_action(Action::MenuSelect(MenuSelection::EnterPlayMode));
    assert!(matches!(app.state, AppState::Editor(_)));
}

#[test]
fn app_load_round_trip_through_the_codec() {
    // Build a world in the editor, save it through the codec, and load it
    // back through the menu as the state machine prescribes.
    let mut app = ApplicationState::new();
    app.apply_action(Action::MenuSelect(MenuSelection::EnterBuildMode));
    app.apply_action(Action::EditorClick { pos: MapPosition::new(1, 1) });
    let bytes = match &app.state {
        AppState::Editor(ed) => ed.world_state.save(),
        _ => panic!("expected the editor"),
    };
    app.apply_action(Action::BackToMenu);

    assert_eq!(
        app.apply_action(Action::MenuSelect(MenuSelection::LoadLatest)),
        AppEffect::LoadWorld,
    );
    assert!(matches!(app.state, AppState::Menu));
    app.apply_load_result(WorldState::load(&bytes));
    match &app.state {
        AppState::Simulation(gm) => {
            let t = gm.world_state.map.get_tile(&MapPosition::new(1, 1)).unwrap();
            assert_eq!(t.tile_type(), TileType::Wall);
        },
        _ => panic!("expected the simulation"),
    }
}

#[test]
fn app_failed_load_stays_in_menu() {
    let mut app = ApplicationState::new();
    app.apply_action(Action::MenuSelect(MenuSelection::LoadLatest));
    app.apply_load_result(WorldState::load(&vec![9, 9, 9]));
    assert!(matches!(app.state, AppState::Menu));
}

#[test]
fn game_menu_click_is_noted_by_the_application() {
    let mut app = ApplicationState::new();
    app.apply_action(Action::MenuSelect(MenuSelection::EnterPlayMode));
    app.apply_action(Action::GameMenuClick { screen_x: 71, screen_y: 12 });
    match &app.state {
        AppState::Simulation(gm) => {
            assert_eq!(gm.status, Notification::MenuClickSeen(71, 12));
        },
        _ => panic!("expected the simulation"),
    }
}

#[test]
fn position_arithmetic() {
    let p = MapPosition::new(5, 7);
    assert_eq!(p.x(), 5);
    assert_eq!(p.y(), 7);
    assert_eq!(p.up(2), MapPosition::new(5, 5));
    assert_eq!(p.down(1), MapPosition::new(5, 8));
    assert_eq!(p.left(3), MapPosition::new(2, 7));
    assert_eq!(p.right(4), MapPosition::new(9, 7));
    assert_eq!(p.as_u16(), Some((5, 7)));
    assert_eq!(MapPosition::new(-1, 7).as_u16(), None);
    assert_eq!(p.manhattan_distance(&MapPosition::new(2, 9)), 5);
    let n = p.neighbors();
    assert_eq!(n[0], MapPosition::new(5, 6));
    assert_eq!(n[1], MapPosition::new(5, 8));
    assert_eq!(n[2], MapPosition::new(4, 7));
    assert_eq!(n[3], MapPosition::new(6, 7));
}
