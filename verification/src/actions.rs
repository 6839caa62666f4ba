//! The closed command vocabulary the core accepts, and the notification
//! values operations leave behind for the presentation layer.

use vstd::prelude::*;
use crate::entity::EntityID;
use crate::position::MapPosition;
use crate::powerup::PowerupType;

verus! {

/// The tool selected in the editor.
#[derive(Clone, Copy, Debug, PartialEq, Eq, Structural)]
pub enum BuildTool {
    Wall,
    Floor,
    Unit,
}

/// A choice on the start menu.
#[derive(Clone, Copy, Debug, PartialEq, Eq, Structural)]
pub enum MenuSelection {
    EnterBuildMode,
    EnterPlayMode,
    LoadLatest,
}

/// A typed command from the input collaborator. The core performs no input
/// parsing itself; it accepts exactly these variants.
#[derive(Clone, Copy, Debug, PartialEq, Eq, Structural)]
pub enum Action {
    BackToMenu,
    QuitApp,
    MenuSelect(MenuSelection),
    CycleBuildTool,
    EditorClick { pos: MapPosition },
    SaveMap,
    EditorMenuClick { screen_x: i32, screen_y: i32 },
    GameMenuClick { screen_x: i32, screen_y: i32 },
    GameClick { pos: MapPosition },
}

/// Outside work that the caller must perform after a command: persist the
/// current world, or load the last saved one and hand the result back.
#[derive(Clone, Copy, Debug, PartialEq, Eq, Structural)]
pub enum AppEffect {
    NoEffect,
    SaveWorld,
    LoadWorld,
}

/// What an operation wants the presentation layer to tell the user. Each
/// operation returns or stores one of these instead of formatting text, so
/// rendering stays outside the core.
#[derive(Clone, Copy, Debug, PartialEq, Eq, Structural)]
pub enum Notification {
    EditorHelp,
    GameHelp,
    ToolChanged(BuildTool),
    WallBuilt(MapPosition),
    FloorCleared(MapPosition),
    UnitSpawned(EntityID),
    SpawnBlocked,
    SavedOk,
    SaveFailed,
    MenuClickIgnored(i32, i32),
    MenuClickSeen(i32, i32),
    UnitSelected(EntityID),
    SelectionCleared,
    UnitMoved,
    UnitMovedWithPickup(PowerupType),
    MoveBlocked,
    TurnEnded,
}

} // verus!
