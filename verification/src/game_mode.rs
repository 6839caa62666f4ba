//! The playable simulation: a world plus a two-phase selection/move
//! protocol and the turn boundary.

use vstd::prelude::*;
use crate::actions::Notification;
use crate::entity::EntityID;
use crate::position::MapPosition;
use crate::world_state::{MoveOutcome, WorldState, WorldStateV};

verus! {

/// The mathematical model of the simulation mode.
pub ghost struct GameModeV {
    pub world_state: WorldStateV,
    pub selected_entity_id: Option<EntityID>,
    pub status: Notification,
}

impl GameModeV {
    /// The world inside is consistent, and a selected identity always
    /// belongs to some actor.
    pub open spec fn wf(self) -> bool {
        &&& self.world_state.wf()
        &&& self.selected_entity_id matches Some(id) ==> self.world_state.has_entity(id)
    }

    /// The simulation freshly entered over a world: nothing selected, the
    /// help message showing.
    pub open spec fn spec_enter(w: WorldStateV) -> GameModeV {
        GameModeV {
            world_state: w,
            selected_entity_id: None,
            status: Notification::GameHelp,
        }
    }

    /// The mode after changing the selection: the previous selection loses
    /// its mark, the new one (if any) gains it, and the change is reported.
    pub open spec fn spec_select(self, id: Option<EntityID>) -> GameModeV {
        let w1 = match self.selected_entity_id {
            Some(prev) => self.world_state.spec_set_selected(prev, false),
            None => self.world_state,
        };
        match id {
            Some(n) => GameModeV {
                world_state: w1.spec_set_selected(n, true),
                selected_entity_id: Some(n),
                status: Notification::UnitSelected(n),
            },
            None => GameModeV {
                world_state: w1,
                selected_entity_id: None,
                status: Notification::SelectionCleared,
            },
        }
    }

    /// The identity standing on the tile at the position, if any.
    pub open spec fn spec_occupant(self, pos: MapPosition) -> Option<EntityID> {
        if self.world_state.map.in_bounds_pos(pos) {
            self.world_state.map.tile_at(pos).entity_id
        } else {
            None
        }
    }

    /// The mode after a click on the map. With no selection, a click
    /// selects the occupant of the tile (or does nothing on an empty one).
    /// With a selection, a click on a different occupied tile switches the
    /// selection; any other click attempts to move the selected actor
    /// there, which is blocked unless the target is standable.
    /// The mode after attempting to move the selected actor to the
    /// position: blocked unless the target is standable, otherwise the
    /// world's atomic move.
    pub open spec fn spec_move_attempt(self, sel: EntityID, pos: MapPosition) -> GameModeV {
        if !self.world_state.map.standable_at(pos) {
            GameModeV { status: Notification::MoveBlocked, ..self }
        } else {
            GameModeV {
                world_state: self.world_state.spec_move(sel, pos),
                status: if self.world_state.map.tile_at(pos).powerup is NoPowerup {
                    Notification::UnitMoved
                } else {
                    Notification::UnitMovedWithPickup(self.world_state.map.tile_at(pos).powerup)
                },
                ..self
            }
        }
    }

    pub open spec fn spec_click(self, pos: MapPosition) -> GameModeV {
        match self.selected_entity_id {
            Some(sel) => match self.spec_occupant(pos) {
                Some(cid) => if cid != sel {
                    self.spec_select(Some(cid))
                } else {
                    self.spec_move_attempt(sel, pos)
                },
                None => self.spec_move_attempt(sel, pos),
            },
            None => self.spec_select(self.spec_occupant(pos)),
        }
    }

    /// The mode after ending the turn: time advances by one turn and the
    /// selection is kept.
    pub open spec fn spec_end_turn(self) -> GameModeV {
        GameModeV {
            world_state: self.world_state.spec_advance_turn(),
            status: Notification::TurnEnded,
            ..self
        }
    }

    /// The mode after a click in the sidebar menu: the end-turn row, the
    /// deselect row, or nothing.
    pub open spec fn spec_menu_click(self, x: i32, y: i32) -> GameModeV {
        if y == 3 {
            self.spec_end_turn()
        } else if y == 4 {
            self.spec_select(None)
        } else {
            GameModeV { status: Notification::MenuClickIgnored(x, y), ..self }
        }
    }
}

/// The playable simulation mode: owns one world, the current selection and
/// the last notification.
#[derive(Debug)]
pub struct GameMode {
    pub world_state: WorldState,
    pub selected_entity_id: Option<EntityID>,
    pub status: Notification,
}

impl View for GameMode {
    type V = GameModeV;

    open spec fn view(&self) -> GameModeV {
        GameModeV {
            world_state: self.world_state@,
            selected_entity_id: self.selected_entity_id,
            status: self.status,
        }
    }
}

/// Marking an actor as selected or not never adds or removes actors.
proof fn lemma_set_selected_keeps_entities(w: WorldStateV, id: EntityID, sel: bool, q: EntityID)
    requires
        w.has_entity(q),
    ensures
        w.spec_set_selected(id, sel).has_entity(q),
{
    let v = w.spec_set_selected(id, sel);
    let i = choose|i: int| 0 <= i < w.entities.len() && (#[trigger] w.entities[i]).id == q;
    assert(0 <= i < v.entities.len() && v.entities[i].id == q);
}

impl GameMode {
    /// Enters the simulation over the given world with nothing selected.
    pub fn new(world_state: WorldState) -> (r: GameMode)
        ensures
            r@ == GameModeV::spec_enter(world_state@),
    {
        GameMode {
            world_state,
            selected_entity_id: None,
            status: Notification::GameHelp,
        }
    }

    /// Changes the selection, unmarking the previous actor and marking the
    /// new one.
    fn select_entity(&mut self, id: Option<EntityID>)
        requires
            old(self)@.wf(),
            id matches Some(n) ==> old(self)@.world_state.has_entity(n),
        ensures
            final(self)@.wf(),
            final(self)@ == old(self)@.spec_select(id),
    {
        if let Some(prev) = self.selected_entity_id {
            self.world_state.set_entity_selected(prev, false);
        }
        self.selected_entity_id = id;
        if let Some(new_id) = id {
            proof {
                if let Some(prev) = old(self)@.selected_entity_id {
                    lemma_set_selected_keeps_entities(
                        old(self)@.world_state,
                        prev,
                        false,
                        new_id,
                    );
                }
            }
            self.world_state.set_entity_selected(new_id, true);
            self.status = Notification::UnitSelected(new_id);
            proof {
                let w2 = self@.world_state;
                let i = choose|i: int|
                    0 <= i < w2.entities.len() && (#[trigger] w2.entities[i]).id == new_id;
            }
        } else {
            self.status = Notification::SelectionCleared;
        }
        proof {
            if let Some(n) = id {
                lemma_set_selected_keeps_entities(
                    match old(self)@.selected_entity_id {
                        Some(prev) => old(self)@.world_state.spec_set_selected(prev, false),
                        None => old(self)@.world_state,
                    },
                    n,
                    true,
                    n,
                );
            }
        }
    }

    /// Attempts to move the selected actor and reports the outcome.
    fn try_move_entity(&mut self, id: EntityID, target_pos: MapPosition)
        requires
            old(self)@.wf(),
            old(self)@.world_state.has_entity(id),
            old(self)@.selected_entity_id matches Some(s) ==> s == id,
        ensures
            final(self)@.wf(),
            final(self)@ == old(self)@.spec_move_attempt(id, target_pos),
    {
        let outcome = self.world_state.move_entity(id, target_pos);
        match outcome {
            MoveOutcome::Blocked => {
                self.status = Notification::MoveBlocked;
            },
            MoveOutcome::Moved => {
                self.status = Notification::UnitMoved;
            },
            MoveOutcome::MovedWithPickup(p) => {
                self.status = Notification::UnitMovedWithPickup(p);
            },
        }
        proof {
            if old(self)@.world_state.map.standable_at(target_pos) {
                let w = old(self)@.world_state;
                let v = w.spec_move(id, target_pos);
                let i = w.index_of_entity(id);
                assert(0 <= i < v.entities.len() && v.entities[i].id == id);
                assert(v.has_entity(id));
            }
        }
    }

    /// Handles a click on the map: select, switch selection, or move.
    pub fn handle_click(&mut self, pos: MapPosition)
        requires
            old(self)@.wf(),
        ensures
            final(self)@.wf(),
            final(self)@ == old(self)@.spec_click(pos),
    {
        proof {
            if old(self)@.spec_occupant(pos) is Some {
                let cid = old(self)@.spec_occupant(pos)->0;
                let w = old(self)@.world_state;
                assert(w.map.tile_at(pos).entity_id is Some);
                let i = choose|i: int|
                    0 <= i < w.entities.len() && (#[trigger] w.entities[i]).id == w.map.tile_at(
                        pos,
                    ).entity_id->0 && w.entities[i].position == pos;
                assert(w.has_entity(cid));
            }
        }
        if let Some(selected_id) = self.selected_entity_id {
            let clicked = self.world_state.get_entity_id_at(pos);
            if let Some(clicked_id) = clicked {
                if clicked_id != selected_id {
                    self.select_entity(Some(clicked_id));
                    return ;
                }
            }
            self.try_move_entity(selected_id, pos);
        } else {
            let clicked = self.world_state.get_entity_id_at(pos);
            self.select_entity(clicked);
        }
    }

    /// Handles a click in the sidebar menu: end the turn, clear the
    /// selection, or report and ignore.
    pub fn handle_menu_click(&mut self, screen_x: i32, screen_y: i32)
        requires
            old(self)@.wf(),
        ensures
            final(self)@.wf(),
            final(self)@ == old(self)@.spec_menu_click(screen_x, screen_y),
    {
        match screen_y {
            3 => {
                self.end_turn();
            },
            4 => {
                self.select_entity(None);
            },
            _ => {
                self.status = Notification::MenuClickIgnored(screen_x, screen_y);
            },
        }
    }

    /// Ends the turn: simulated time advances once for every actor; the
    /// selection is kept.
    pub fn end_turn(&mut self)
        requires
            old(self)@.wf(),
        ensures
            final(self)@.wf(),
            final(self)@ == old(self)@.spec_end_turn(),
    {
        self.world_state.advance_turn();
        self.status = Notification::TurnEnded;
        proof {
            if let Some(sel) = old(self)@.selected_entity_id {
                let w = old(self)@.world_state;
                let v = w.spec_advance_turn();
                let i = choose|i: int|
                    0 <= i < w.entities.len() && (#[trigger] w.entities[i]).id == sel;
                assert(v.entities[i].id == sel);
                assert(v.has_entity(sel));
            }
        }
    }
}

} // verus!
