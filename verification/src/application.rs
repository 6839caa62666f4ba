//! The top-level mode state machine: Menu, Editor, Simulation or Exiting,
//! routing each inbound command to the active mode. Any command not valid
//! for the current state is ignored deliberately: no error, no change.

use vstd::prelude::*;
use crate::actions::{Action, AppEffect, MenuSelection, Notification};
use crate::editor::{EditorMode, EditorModeV};
use crate::game_map::lemma_index_in_range;
use crate::game_mode::{GameMode, GameModeV};
use crate::position::MapPosition;
use crate::world_state::{WorldState, WorldStateV};

verus! {

/// Health the player starts with in a new game.
pub const PLAYER_HEALTH: u32 = 100;

/// Energy the player starts with in a new game.
pub const PLAYER_ENERGY: u32 = 5;

/// Team of the player.
pub const PLAYER_TEAM: u32 = 1;

/// Where the player is spawned in a new game.
pub open spec fn spec_player_start() -> MapPosition {
    MapPosition { x: 10, y: 10 }
}

/// The player's name, as bytes.
pub open spec fn spec_player_name() -> Seq<u8> {
    seq![80u8, 108u8, 97u8, 121u8, 101u8, 114u8]
}

/// Builds the player name ("Player") as bytes.
pub fn player_name() -> (r: Vec<u8>)
    ensures
        r@ == spec_player_name(),
{
    let mut v: Vec<u8> = Vec::new();
    v.push(80);
    v.push(108);
    v.push(97);
    v.push(121);
    v.push(101);
    v.push(114);
    proof {
        assert(v@ =~= spec_player_name());
    }
    v
}

/// The world a new game starts from: a fresh world with the player spawned
/// at the start position.
pub open spec fn spec_new_game_world() -> WorldStateV {
    WorldStateV::spec_fresh().spec_spawn(
        spec_player_start(),
        '@',
        spec_player_name(),
        PLAYER_HEALTH,
        PLAYER_ENERGY,
        PLAYER_TEAM,
        false,
    )
}

/// The mathematical model of the top-level state.
pub ghost enum AppStateV {
    Menu,
    Editor(EditorModeV),
    Simulation(GameModeV),
    Exiting,
}

impl AppStateV {
    /// Whatever mode is active is consistent.
    pub open spec fn wf(self) -> bool {
        match self {
            AppStateV::Menu => true,
            AppStateV::Editor(em) => em.wf(),
            AppStateV::Simulation(gm) => gm.wf(),
            AppStateV::Exiting => true,
        }
    }

    /// The transition table of the state machine: the next state and the
    /// outside work (saving or loading a world) the caller must perform.
    /// Commands not valid for the current state change nothing.
    pub open spec fn spec_apply(self, action: Action) -> (AppStateV, AppEffect) {
        match self {
            AppStateV::Menu => match action {
                Action::MenuSelect(MenuSelection::EnterBuildMode) => (
                    AppStateV::Editor(EditorModeV::spec_init()),
                    AppEffect::NoEffect,
                ),
                Action::MenuSelect(MenuSelection::EnterPlayMode) => (
                    AppStateV::Simulation(GameModeV::spec_enter(spec_new_game_world())),
                    AppEffect::NoEffect,
                ),
                Action::MenuSelect(MenuSelection::LoadLatest) => (
                    AppStateV::Menu,
                    AppEffect::LoadWorld,
                ),
                Action::QuitApp => (AppStateV::Exiting, AppEffect::NoEffect),
                _ => (self, AppEffect::NoEffect),
            },
            AppStateV::Editor(em) => match action {
                Action::BackToMenu => (AppStateV::Menu, AppEffect::NoEffect),
                Action::CycleBuildTool => (
                    AppStateV::Editor(em.spec_cycle()),
                    AppEffect::NoEffect,
                ),
                Action::SaveMap => (self, AppEffect::SaveWorld),
                Action::EditorClick { pos } => (
                    AppStateV::Editor(em.spec_click(pos)),
                    AppEffect::NoEffect,
                ),
                Action::EditorMenuClick { screen_x, screen_y } => (
                    AppStateV::Editor(em.spec_menu_click(screen_x, screen_y).0),
                    em.spec_menu_click(screen_x, screen_y).1,
                ),
                _ => (self, AppEffect::NoEffect),
            },
            AppStateV::Simulation(gm) => match action {
                Action::BackToMenu => (AppStateV::Menu, AppEffect::NoEffect),
                Action::GameClick { pos } => (
                    AppStateV::Simulation(gm.spec_click(pos)),
                    AppEffect::NoEffect,
                ),
                Action::GameMenuClick { screen_x, screen_y } => (
                    AppStateV::Simulation(
                        GameModeV {
                            status: Notification::MenuClickSeen(screen_x, screen_y),
                            ..gm
                        },
                    ),
                    AppEffect::NoEffect,
                ),
                _ => (self, AppEffect::NoEffect),
            },
            AppStateV::Exiting => (self, AppEffect::NoEffect),
        }
    }

    /// How a finished load is applied: in the menu, a loaded world enters
    /// the simulation and a failure stays in the menu; elsewhere the result
    /// is ignored.
    pub open spec fn spec_apply_load(self, loaded: Option<WorldStateV>) -> AppStateV {
        match self {
            AppStateV::Menu => match loaded {
                Some(w) => AppStateV::Simulation(GameModeV::spec_enter(w)),
                None => AppStateV::Menu,
            },
            _ => self,
        }
    }
}

/// The top-level state: exactly one variant is live at a time, so at most
/// one world exists at a time.
#[derive(Debug)]
pub enum AppState {
    Menu,
    Editor(EditorMode),
    Simulation(GameMode),
    Exiting,
}

impl View for AppState {
    type V = AppStateV;

    open spec fn view(&self) -> AppStateV {
        match self {
            AppState::Menu => AppStateV::Menu,
            AppState::Editor(em) => AppStateV::Editor(em@),
            AppState::Simulation(gm) => AppStateV::Simulation(gm@),
            AppState::Exiting => AppStateV::Exiting,
        }
    }
}

/// The application: holds the current top-level state and routes commands.
#[derive(Debug)]
pub struct ApplicationState {
    pub state: AppState,
}

impl View for ApplicationState {
    type V = AppStateV;

    open spec fn view(&self) -> AppStateV {
        self.state@
    }
}

impl ApplicationState {
    /// Starts in the menu.
    pub fn new() -> (r: ApplicationState)
        ensures
            r@ == AppStateV::Menu,
            r@.wf(),
    {
        ApplicationState { state: AppState::Menu }
    }

    /// Applies one command according to the transition table and returns
    /// the outside work the caller must perform. Commands not valid for the
    /// current state are ignored: no error, no state change.
    pub fn apply_action(&mut self, action: Action) -> (r: AppEffect)
        requires
            old(self)@.wf(),
        ensures
            final(self)@.wf(),
            final(self)@ == old(self)@.spec_apply(action).0,
            r == old(self)@.spec_apply(action).1,
    {
        match &mut self.state {
            AppState::Menu => {
                match action {
                    Action::MenuSelect(MenuSelection::EnterBuildMode) => {
                        self.state = AppState::Editor(EditorMode::new());
                        AppEffect::NoEffect
                    },
                    Action::MenuSelect(MenuSelection::EnterPlayMode) => {
                        let mut ws = WorldState::new();
                        proof {
                            let f = WorldStateV::spec_fresh();
                            lemma_index_in_range(f.map.width, f.map.height, 10int, 10int);
                            assert(f.map.standable_at(spec_player_start()));
                        }
                        let spawned = ws.spawn_entity(
                            MapPosition::new(10, 10),
                            '@',
                            player_name(),
                            PLAYER_HEALTH,
                            PLAYER_ENERGY,
                            PLAYER_TEAM,
                            false,
                        );
                        proof {
                            assert(spawned is Some);
                            assert(ws@ == spec_new_game_world());
                        }
                        self.state = AppState::Simulation(GameMode::new(ws));
                        AppEffect::NoEffect
                    },
                    Action::MenuSelect(MenuSelection::LoadLatest) => AppEffect::LoadWorld,
                    Action::QuitApp => {
                        self.state = AppState::Exiting;
                        AppEffect::NoEffect
                    },
                    _ => AppEffect::NoEffect,
                }
            },
            AppState::Editor(editor) => {
                match action {
                    Action::BackToMenu => {
                        self.state = AppState::Menu;
                        AppEffect::NoEffect
                    },
                    Action::CycleBuildTool => {
                        editor.cycle_tool();
                        AppEffect::NoEffect
                    },
                    Action::SaveMap => AppEffect::SaveWorld,
                    Action::EditorClick { pos } => {
                        editor.handle_click(pos);
                        AppEffect::NoEffect
                    },
                    Action::EditorMenuClick { screen_x, screen_y } => editor.handle_menu_click(
                        screen_x,
                        screen_y,
                    ),
                    _ => AppEffect::NoEffect,
                }
            },
            AppState::Simulation(game) => {
                match action {
                    Action::BackToMenu => {
                        self.state = AppState::Menu;
                        AppEffect::NoEffect
                    },
                    Action::GameClick { pos } => {
                        game.handle_click(pos);
                        AppEffect::NoEffect
                    },
                    Action::GameMenuClick { screen_x, screen_y } => {
                        game.status = Notification::MenuClickSeen(screen_x, screen_y);
                        AppEffect::NoEffect
                    },
                    _ => AppEffect::NoEffect,
                }
            },
            AppState::Exiting => AppEffect::NoEffect,
        }
    }

    /// Hands back the outcome of a requested load: a loaded world enters
    /// the simulation, a failure leaves the menu as it was. Outside the
    /// menu the result is ignored.
    pub fn apply_load_result(&mut self, loaded: Option<WorldState>)
        requires
            old(self)@.wf(),
            loaded matches Some(w) ==> w@.wf(),
        ensures
            final(self)@.wf(),
            final(self)@ == old(self)@.spec_apply_load(
                match loaded {
                    Some(w) => Some(w@),
                    None => None,
                },
            ),
    {
        if matches!(&self.state, AppState::Menu) {
            match loaded {
                Some(w) => {
                    self.state = AppState::Simulation(GameMode::new(w));
                },
                None => {},
            }
        }
    }

    /// Hands back the outcome of a requested save to the active editor;
    /// elsewhere the result is ignored.
    pub fn note_save_result(&mut self, ok: bool)
        requires
            old(self)@.wf(),
        ensures
            final(self)@.wf(),
            final(self)@ == match old(self)@ {
                AppStateV::Editor(em) => AppStateV::Editor(
                    EditorModeV {
                        status: if ok {
                            Notification::SavedOk
                        } else {
                            Notification::SaveFailed
                        },
                        ..em
                    },
                ),
                s => s,
            },
    {
        match &mut self.state {
            AppState::Editor(editor) => {
                editor.note_save_result(ok);
            },
            _ => {},
        }
    }
}

} // verus!
