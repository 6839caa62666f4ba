//! The map editor: a world plus the selected tool, dispatching clicks to
//! the world's build and spawn operations.

use vstd::prelude::*;
use crate::actions::{AppEffect, BuildTool, Notification};
use crate::entity::EntityID;
use crate::position::MapPosition;
use crate::world_state::{WorldState, WorldStateV};

verus! {

/// Health a unit placed by the editor starts with.
pub const EDITOR_UNIT_HEALTH: u32 = 50;

/// Energy a unit placed by the editor starts with.
pub const EDITOR_UNIT_ENERGY: u32 = 3;

/// Team of a unit placed by the editor.
pub const EDITOR_UNIT_TEAM: u32 = 2;

/// The name given to units placed by the editor, as bytes.
pub open spec fn spec_editor_unit_name() -> Seq<u8> {
    seq![69u8, 100u8, 105u8, 116u8, 111u8, 114u8, 32u8, 85u8, 110u8, 105u8, 116u8]
}

/// Builds the editor unit name ("Editor Unit") as bytes.
pub fn editor_unit_name() -> (r: Vec<u8>)
    ensures
        r@ == spec_editor_unit_name(),
{
    let mut v: Vec<u8> = Vec::new();
    v.push(69);
    v.push(100);
    v.push(105);
    v.push(116);
    v.push(111);
    v.push(114);
    v.push(32);
    v.push(85);
    v.push(110);
    v.push(105);
    v.push(116);
    proof {
        assert(v@ =~= spec_editor_unit_name());
    }
    v
}

/// The mathematical model of the editor mode.
pub ghost struct EditorModeV {
    pub world_state: WorldStateV,
    pub current_tool: BuildTool,
    pub status: Notification,
}

impl EditorModeV {
    /// The world inside is consistent.
    pub open spec fn wf(self) -> bool {
        self.world_state.wf()
    }

    /// A fresh editor: a fresh world, the wall tool, the help message.
    pub open spec fn spec_init() -> EditorModeV {
        EditorModeV {
            world_state: WorldStateV::spec_fresh(),
            current_tool: BuildTool::Wall,
            status: Notification::EditorHelp,
        }
    }

    /// The tool after the current one in the fixed round-robin.
    pub open spec fn spec_next_tool(t: BuildTool) -> BuildTool {
        match t {
            BuildTool::Wall => BuildTool::Floor,
            BuildTool::Floor => BuildTool::Unit,
            BuildTool::Unit => BuildTool::Wall,
        }
    }

    /// The editor after cycling the tool.
    pub open spec fn spec_cycle(self) -> EditorModeV {
        EditorModeV {
            current_tool: Self::spec_next_tool(self.current_tool),
            status: Notification::ToolChanged(Self::spec_next_tool(self.current_tool)),
            ..self
        }
    }

    /// The editor after a click on the map, dispatched on the current tool.
    /// The wall tool reports only successes; the floor tool always reports;
    /// the unit tool spawns a default unit and reports either the new
    /// identity or that the tile was blocked.
    pub open spec fn spec_click(self, pos: MapPosition) -> EditorModeV {
        match self.current_tool {
            BuildTool::Wall => EditorModeV {
                world_state: self.world_state.spec_build_wall(pos),
                status: if self.world_state.map.walkable_at(pos) {
                    Notification::WallBuilt(pos)
                } else {
                    self.status
                },
                ..self
            },
            BuildTool::Floor => EditorModeV {
                world_state: self.world_state.spec_build_floor(pos),
                status: Notification::FloorCleared(pos),
                ..self
            },
            BuildTool::Unit => {
                if self.world_state.map.standable_at(pos) && self.world_state.next_entity_id
                    < EntityID::MAX {
                    EditorModeV {
                        world_state: self.world_state.spec_spawn(
                            pos,
                            'E',
                            spec_editor_unit_name(),
                            EDITOR_UNIT_HEALTH,
                            EDITOR_UNIT_ENERGY,
                            EDITOR_UNIT_TEAM,
                            false,
                        ),
                        status: Notification::UnitSpawned(self.world_state.next_entity_id),
                        ..self
                    }
                } else {
                    EditorModeV { status: Notification::SpawnBlocked, ..self }
                }
            },
        }
    }

    /// The editor after a click in the sidebar menu: the tool rows select a
    /// tool, the save row asks the caller to persist the world, anything
    /// else is reported and ignored.
    pub open spec fn spec_menu_click(self, x: i32, y: i32) -> (EditorModeV, AppEffect) {
        if y == 3 {
            (
                EditorModeV {
                    current_tool: BuildTool::Wall,
                    status: Notification::ToolChanged(BuildTool::Wall),
                    ..self
                },
                AppEffect::NoEffect,
            )
        } else if y == 4 {
            (
                EditorModeV {
                    current_tool: BuildTool::Floor,
                    status: Notification::ToolChanged(BuildTool::Floor),
                    ..self
                },
                AppEffect::NoEffect,
            )
        } else if y == 5 {
            (
                EditorModeV {
                    current_tool: BuildTool::Unit,
                    status: Notification::ToolChanged(BuildTool::Unit),
                    ..self
                },
                AppEffect::NoEffect,
            )
        } else if y == 8 {
            (self, AppEffect::SaveWorld)
        } else {
            (EditorModeV { status: Notification::MenuClickIgnored(x, y), ..self }, AppEffect::NoEffect)
        }
    }
}

/// The map editor mode: owns one world, the selected tool and the last
/// notification.
#[derive(Debug)]
pub struct EditorMode {
    pub world_state: WorldState,
    pub current_tool: BuildTool,
    pub status: Notification,
}

impl View for EditorMode {
    type V = EditorModeV;

    open spec fn view(&self) -> EditorModeV {
        EditorModeV {
            world_state: self.world_state@,
            current_tool: self.current_tool,
            status: self.status,
        }
    }
}

impl EditorMode {
    /// A fresh editor over a fresh world, starting with the wall tool.
    pub fn new() -> (r: EditorMode)
        ensures
            r@ == EditorModeV::spec_init(),
            r@.wf(),
    {
        EditorMode {
            world_state: WorldState::new(),
            current_tool: BuildTool::Wall,
            status: Notification::EditorHelp,
        }
    }

    /// Selects the next tool in the fixed round-robin and reports it.
    pub fn cycle_tool(&mut self)
        ensures
            final(self)@ == old(self)@.spec_cycle(),
    {
        self.current_tool = match self.current_tool {
            BuildTool::Wall => BuildTool::Floor,
            BuildTool::Floor => BuildTool::Unit,
            BuildTool::Unit => BuildTool::Wall,
        };
        self.status = Notification::ToolChanged(self.current_tool);
    }

    /// Applies the current tool to the clicked map position.
    pub fn handle_click(&mut self, pos: MapPosition)
        requires
            old(self)@.wf(),
        ensures
            final(self)@.wf(),
            final(self)@ == old(self)@.spec_click(pos),
    {
        match self.current_tool {
            BuildTool::Wall => {
                if self.world_state.build_wall(pos) {
                    self.status = Notification::WallBuilt(pos);
                }
            },
            BuildTool::Floor => {
                self.world_state.build_floor(pos);
                self.status = Notification::FloorCleared(pos);
            },
            BuildTool::Unit => {
                match self.world_state.spawn_entity(
                    pos,
                    'E',
                    editor_unit_name(),
                    EDITOR_UNIT_HEALTH,
                    EDITOR_UNIT_ENERGY,
                    EDITOR_UNIT_TEAM,
                    false,
                ) {
                    Some(id) => {
                        self.status = Notification::UnitSpawned(id);
                    },
                    None => {
                        self.status = Notification::SpawnBlocked;
                    },
                }
            },
        }
    }

    /// Routes a click in the sidebar menu: tool rows, the save row, or
    /// nothing.
    pub fn handle_menu_click(&mut self, screen_x: i32, screen_y: i32) -> (r: AppEffect)
        ensures
            final(self)@ == old(self)@.spec_menu_click(screen_x, screen_y).0,
            r == old(self)@.spec_menu_click(screen_x, screen_y).1,
    {
        match screen_y {
            3 => {
                self.current_tool = BuildTool::Wall;
                self.status = Notification::ToolChanged(BuildTool::Wall);
                AppEffect::NoEffect
            },
            4 => {
                self.current_tool = BuildTool::Floor;
                self.status = Notification::ToolChanged(BuildTool::Floor);
                AppEffect::NoEffect
            },
            5 => {
                self.current_tool = BuildTool::Unit;
                self.status = Notification::ToolChanged(BuildTool::Unit);
                AppEffect::NoEffect
            },
            8 => AppEffect::SaveWorld,
            _ => {
                self.status = Notification::MenuClickIgnored(screen_x, screen_y);
                AppEffect::NoEffect
            },
        }
    }

    /// Records the outcome of the save the caller performed on this
    /// editor's behalf.
    pub fn note_save_result(&mut self, ok: bool)
        ensures
            final(self)@ == (EditorModeV {
                status: if ok {
                    Notification::SavedOk
                } else {
                    Notification::SaveFailed
                },
                ..old(self)@
            }),
    {
        self.status = if ok {
            Notification::SavedOk
        } else {
            Notification::SaveFailed
        };
    }
}

} // verus!
