//! The authoritative world model: one map plus the actor collection, with
//! the central tile/actor consistency invariant enforced on every mutation.

use vstd::prelude::*;
use crate::entity::{Entity, EntityID, EntityV};
use crate::game_map::{lemma_index_in_range, lemma_index_injective, GameMap, GameMapV};
use crate::position::MapPosition;
use crate::powerup::PowerupType;
use crate::tile::{Tile, TileType};

verus! {

/// What a move attempt did: nothing (the target was not standable), a plain
/// move, or a move that also collected the pickup on the target tile.
#[derive(Clone, Copy, Debug, PartialEq, Eq, Structural)]
pub enum MoveOutcome {
    Blocked,
    Moved,
    MovedWithPickup(PowerupType),
}

/// Width of a freshly created world.
pub const WORLD_WIDTH: i32 = 100;

/// Height of a freshly created world.
pub const WORLD_HEIGHT: i32 = 25;

/// How much health a healing potion restores when picked up.
pub const HEAL_AMOUNT: u32 = 25;

/// The mathematical model of a world: the map model, the actor models in
/// insertion order, and the next identity to hand out.
pub ghost struct WorldStateV {
    pub map: GameMapV,
    pub entities: Seq<EntityV>,
    pub next_entity_id: EntityID,
}

impl WorldStateV {
    /// The model of a fresh world: an all-walkable map of the default size,
    /// no actors, identities starting at zero.
    pub open spec fn spec_fresh() -> WorldStateV {
        WorldStateV {
            map: GameMapV {
                width: WORLD_WIDTH as int,
                height: WORLD_HEIGHT as int,
                tiles: Seq::new((WORLD_WIDTH * WORLD_HEIGHT) as nat, |i: int| Tile::spec_walkable()),
            },
            entities: Seq::empty(),
            next_entity_id: 0,
        }
    }

    /// Every actor is well-formed, stands in bounds, is recorded as the
    /// occupant of the tile under it, and carries an already-allocated
    /// identity.
    pub open spec fn entities_ok(self) -> bool {
        forall|i: int|
            0 <= i < self.entities.len() ==> {
                let e = #[trigger] self.entities[i];
                &&& e.wf()
                &&& self.map.in_bounds_pos(e.position)
                &&& self.map.tile_at(e.position).entity_id == Some(e.id)
                &&& e.id < self.next_entity_id
            }
    }

    /// No two actors carry the same identity.
    pub open spec fn ids_unique(self) -> bool {
        forall|i: int, j: int|
            0 <= i < j < self.entities.len() ==> (#[trigger] self.entities[i]).id != (
            #[trigger] self.entities[j]).id
    }

    /// Every occupied tile is backed by an actor with that identity standing
    /// at that position.
    pub open spec fn occupants_backed(self) -> bool {
        forall|p: MapPosition|
            self.map.in_bounds_pos(p) && (#[trigger] self.map.tile_at(p)).entity_id is Some
                ==> exists|i: int|
                0 <= i < self.entities.len() && (#[trigger] self.entities[i]).id
                    == self.map.tile_at(p).entity_id->0 && self.entities[i].position == p
    }

    /// The central consistency invariant of the world.
    pub open spec fn wf(self) -> bool {
        &&& self.map.wf()
        &&& self.entities.len() <= self.next_entity_id
        &&& self.entities_ok()
        &&& self.ids_unique()
        &&& self.occupants_backed()
    }

    /// Whether some actor carries the identity.
    pub open spec fn has_entity(self, id: EntityID) -> bool {
        exists|i: int| 0 <= i < self.entities.len() && (#[trigger] self.entities[i]).id == id
    }

    /// The index of the actor with the identity (meaningful when it exists).
    pub open spec fn index_of_entity(self, id: EntityID) -> int {
        choose|i: int| 0 <= i < self.entities.len() && (#[trigger] self.entities[i]).id == id
    }

    /// The world after marking the actor with the identity as selected or
    /// not. An absent identity changes nothing.
    pub open spec fn spec_set_selected(self, id: EntityID, sel: bool) -> WorldStateV {
        if self.has_entity(id) {
            WorldStateV {
                entities: self.entities.update(
                    self.index_of_entity(id),
                    EntityV { is_selected: sel, ..self.entities[self.index_of_entity(id)] },
                ),
                ..self
            }
        } else {
            self
        }
    }

    /// The actor collection with the actor of the given identity removed,
    /// when present.
    pub open spec fn spec_remove_id(self, id: EntityID) -> Seq<EntityV> {
        if self.has_entity(id) {
            self.entities.remove(self.index_of_entity(id))
        } else {
            self.entities
        }
    }

    /// The world after a position has been vacated: the actor recorded
    /// there (if any) is removed from the collection, and the tile loses
    /// its occupant and pickup. Out-of-bounds positions change nothing.
    pub open spec fn spec_clear_pos(self, pos: MapPosition) -> WorldStateV {
        if !self.map.in_bounds_pos(pos) {
            self
        } else {
            let t = self.map.tile_at(pos);
            WorldStateV {
                map: self.map.with_tile(
                    pos,
                    Tile { entity_id: None, powerup: PowerupType::NoPowerup, ..t },
                ),
                entities: match t.entity_id {
                    Some(id) => self.spec_remove_id(id),
                    None => self.entities,
                },
                next_entity_id: self.next_entity_id,
            }
        }
    }

    /// The world after a wall-building attempt: when the position is in
    /// bounds and walkable, the position is vacated and its tile becomes a
    /// bare wall; otherwise nothing changes.
    pub open spec fn spec_build_wall(self, pos: MapPosition) -> WorldStateV {
        if self.map.walkable_at(pos) {
            let c = self.spec_clear_pos(pos);
            WorldStateV { map: c.map.with_tile(pos, Tile::spec_wall()), ..c }
        } else {
            self
        }
    }

    /// The world after forcing a floor: when the position is in bounds, the
    /// position is vacated and its tile becomes a fresh walkable floor;
    /// otherwise nothing changes.
    pub open spec fn spec_build_floor(self, pos: MapPosition) -> WorldStateV {
        if self.map.in_bounds_pos(pos) {
            let c = self.spec_clear_pos(pos);
            WorldStateV { map: c.map.with_tile(pos, Tile::spec_walkable()), ..c }
        } else {
            self
        }
    }

    /// The world after a successful move of the actor with the identity to
    /// the target tile: the old tile loses its occupant, the target tile
    /// gains it and loses its pickup, and the actor stands at the target
    /// with a healing pickup (if one was there) applied once.
    pub open spec fn spec_move(self, id: EntityID, target: MapPosition) -> WorldStateV {
        let i = self.index_of_entity(id);
        let e = self.entities[i];
        let t = self.map.tile_at(target);
        let e2 = EntityV {
            position: target,
            health: if t.powerup is HealingPotion {
                crate::entity::spec_healed(e, HEAL_AMOUNT)
            } else {
                e.health
            },
            ..e
        };
        WorldStateV {
            map: self.map.with_tile(
                e.position,
                Tile { entity_id: None, ..self.map.tile_at(e.position) },
            ).with_tile(target, Tile { entity_id: Some(id), powerup: PowerupType::NoPowerup, ..t }),
            entities: self.entities.update(i, e2),
            next_entity_id: self.next_entity_id,
        }
    }

    /// The world after one turn boundary: every actor's stun counter moves
    /// toward zero and actors that are no longer stunned get their energy
    /// refilled. Nothing else changes.
    pub open spec fn spec_advance_turn(self) -> WorldStateV {
        WorldStateV {
            entities: Seq::new(self.entities.len(), |i: int| self.entities[i].spec_advance_turn()),
            ..self
        }
    }

    /// The world after a successful spawn: the new actor appended, the
    /// target tile pointing at it, and the identity counter advanced.
    pub open spec fn spec_spawn(
        self,
        pos: MapPosition,
        symbol: char,
        name: Seq<u8>,
        max_health: u32,
        max_energy: u32,
        team: u32,
        is_ai: bool,
    ) -> WorldStateV {
        let e = EntityV {
            is_ai,
            ..EntityV::spec_new(
                self.next_entity_id,
                symbol,
                name,
                pos,
                team,
                max_health,
                max_energy,
            )
        };
        WorldStateV {
            map: self.map.with_tile(
                pos,
                Tile { entity_id: Some(self.next_entity_id), ..self.map.tile_at(pos) },
            ),
            entities: self.entities.push(e),
            next_entity_id: (self.next_entity_id + 1) as EntityID,
        }
    }
}

/// A world: one map and the actors standing on it. All mutation goes through
/// the operations here, which re-establish the consistency invariant before
/// returning.
#[derive(Debug, Clone, PartialEq, Eq)]
pub struct WorldState {
    pub map: GameMap,
    pub entities: Vec<Entity>,
    pub next_entity_id: EntityID,
}

impl View for WorldState {
    type V = WorldStateV;

    open spec fn view(&self) -> WorldStateV {
        WorldStateV {
            map: self.map@,
            entities: Seq::new(self.entities@.len(), |i: int| self.entities@[i]@),
            next_entity_id: self.next_entity_id,
        }
    }
}

/// In a well-formed world the tile under every actor records exactly that
/// actor as its occupant.
pub proof fn lemma_entity_tile_points_back(w: WorldStateV, i: int)
    requires
        w.wf(),
        0 <= i < w.entities.len(),
    ensures
        w.map.in_bounds_pos(w.entities[i].position),
        w.map.tile_at(w.entities[i].position).entity_id == Some(w.entities[i].id),
{
}

/// Two distinct actors of a well-formed world never share a position.
pub proof fn lemma_no_shared_positions(w: WorldStateV, i: int, j: int)
    requires
        w.wf(),
        0 <= i < w.entities.len(),
        0 <= j < w.entities.len(),
        i != j,
    ensures
        w.entities[i].position != w.entities[j].position,
{
    if w.entities[i].position == w.entities[j].position {
        assert(w.map.tile_at(w.entities[i].position).entity_id == Some(w.entities[i].id));
        assert(w.map.tile_at(w.entities[j].position).entity_id == Some(w.entities[j].id));
        assert(w.entities[i].id == w.entities[j].id);
    }
}

/// Replacing one tile changes that position alone, and keeps the map
/// well-formed when the new tile is.
pub proof fn lemma_with_tile(m: GameMapV, pos: MapPosition, t: Tile)
    requires
        m.wf(),
        m.in_bounds_pos(pos),
    ensures
        m.with_tile(pos, t).width == m.width,
        m.with_tile(pos, t).height == m.height,
        m.with_tile(pos, t).tiles.len() == m.tiles.len(),
        m.with_tile(pos, t).tile_at(pos) == t,
        forall|p: MapPosition|
            m.in_bounds_pos(p) && p != pos ==> #[trigger] m.with_tile(pos, t).tile_at(p)
                == m.tile_at(p),
        t.wf() ==> m.with_tile(pos, t).wf(),
{
    let m2 = m.with_tile(pos, t);
    let idx = m.index_of(pos.x as int, pos.y as int);
    lemma_index_in_range(m.width, m.height, pos.x as int, pos.y as int);
    assert forall|p: MapPosition| m.in_bounds_pos(p) && p != pos implies #[trigger] m2.tile_at(p)
        == m.tile_at(p) by {
        lemma_index_in_range(m.width, m.height, p.x as int, p.y as int);
        lemma_index_injective(m.width, m.height, p.x as int, p.y as int, pos.x as int, pos.y as int);
    }
    if t.wf() {
        assert forall|i: int| 0 <= i < m2.tiles.len() implies (#[trigger] m2.tiles[i]).wf() by {
            if i != idx {
                assert(m2.tiles[i] == m.tiles[i]);
                assert(m.tiles[i].wf());
            }
        }
    }
}

/// An actor standing at an in-bounds position is the one the tile there
/// records, and it is unique.
pub proof fn lemma_occupant_is_unique(w: WorldStateV, pos: MapPosition, i: int)
    requires
        w.wf(),
        0 <= i < w.entities.len(),
        w.entities[i].position == pos,
    ensures
        w.map.tile_at(pos).entity_id == Some(w.entities[i].id),
        forall|j: int|
            0 <= j < w.entities.len() && (#[trigger] w.entities[j]).position == pos ==> j == i,
{
    assert forall|j: int|
        0 <= j < w.entities.len() && (#[trigger] w.entities[j]).position == pos implies j == i by {
        if j != i {
            lemma_no_shared_positions(w, i, j);
        }
    }
}

/// Vacating a position preserves the world invariant.
pub proof fn lemma_clear_pos_wf(w: WorldStateV, pos: MapPosition)
    requires
        w.wf(),
    ensures
        w.spec_clear_pos(pos).wf(),
        w.spec_clear_pos(pos).next_entity_id == w.next_entity_id,
        w.map.in_bounds_pos(pos) ==> w.spec_clear_pos(pos).map.tile_at(pos) == (Tile {
            entity_id: None,
            powerup: PowerupType::NoPowerup,
            ..w.map.tile_at(pos)
        }),
        w.map.in_bounds_pos(pos) ==> w.spec_clear_pos(pos).map.tile_at(pos).entity_id is None,
{
    if w.map.in_bounds_pos(pos) {
        let v = w.spec_clear_pos(pos);
        let t = w.map.tile_at(pos);
        let t2 = Tile { entity_id: None, powerup: PowerupType::NoPowerup, ..t };
        lemma_index_in_range(w.map.width, w.map.height, pos.x as int, pos.y as int);
        assert(t.wf());
        lemma_with_tile(w.map, pos, t2);

        // Which actors remain, in terms of the previous indexes.
        match t.entity_id {
            Some(id) => {
                let j = choose|j: int|
                    0 <= j < w.entities.len() && (#[trigger] w.entities[j]).id
                        == w.map.tile_at(pos).entity_id->0 && w.entities[j].position == pos;
                assert(w.has_entity(id));
                let idx = w.index_of_entity(id);
                assert(0 <= idx < w.entities.len() && w.entities[idx].id == id);
                if idx != j {
                    assert(w.entities[idx].id != w.entities[j].id);
                }
                assert(w.entities[idx].position == pos);
                lemma_occupant_is_unique(w, pos, idx);
                assert(v.entities == w.entities.remove(idx));
                assert forall|k: int| 0 <= k < v.entities.len() implies #[trigger] v.entities[k]
                    == w.entities[if k < idx { k } else { k + 1 }] by {}

                assert(v.entities_ok()) by {
                    assert forall|k: int| 0 <= k < v.entities.len() implies {
                        let e = #[trigger] v.entities[k];
                        &&& e.wf()
                        &&& v.map.in_bounds_pos(e.position)
                        &&& v.map.tile_at(e.position).entity_id == Some(e.id)
                        &&& e.id < v.next_entity_id
                    } by {
                        let k0: int = if k < idx { k } else { k + 1 };
                        let e = w.entities[k0];
                        assert(e.wf() && w.map.in_bounds_pos(e.position) && w.map.tile_at(
                            e.position,
                        ).entity_id == Some(e.id) && e.id < w.next_entity_id);
                        assert(e.position != pos);
                        assert(v.map.tile_at(e.position) == w.map.tile_at(e.position));
                    }
                }
                assert(v.ids_unique()) by {
                    assert forall|a: int, b: int| 0 <= a < b < v.entities.len() implies (
                    #[trigger] v.entities[a]).id != (#[trigger] v.entities[b]).id by {
                        let a0: int = if a < idx { a } else { a + 1 };
                        let b0: int = if b < idx { b } else { b + 1 };
                        assert(w.entities[a0].id != w.entities[b0].id);
                    }
                }
                assert(v.occupants_backed()) by {
                    assert forall|p: MapPosition| v.map.in_bounds_pos(p) && (
                    #[trigger] v.map.tile_at(p)).entity_id is Some implies exists|i: int|
                        0 <= i < v.entities.len() && (#[trigger] v.entities[i]).id == v.map.tile_at(
                            p,
                        ).entity_id->0 && v.entities[i].position == p by {
                        assert(p != pos);
                        assert(v.map.tile_at(p) == w.map.tile_at(p));
                        let i0 = choose|i0: int|
                            0 <= i0 < w.entities.len() && (#[trigger] w.entities[i0]).id
                                == w.map.tile_at(p).entity_id->0 && w.entities[i0].position == p;
                        assert(i0 != idx);
                        let i1: int = if i0 < idx { i0 } else { i0 - 1 };
                        assert(v.entities[i1] == w.entities[i0]);
                        assert(0 <= i1 < v.entities.len() && v.entities[i1].id == v.map.tile_at(
                            p,
                        ).entity_id->0 && v.entities[i1].position == p);
                    }
                }
            },
            None => {
                assert(v.entities == w.entities);
                assert(v.entities_ok()) by {
                    assert forall|k: int| 0 <= k < v.entities.len() implies {
                        let e = #[trigger] v.entities[k];
                        &&& e.wf()
                        &&& v.map.in_bounds_pos(e.position)
                        &&& v.map.tile_at(e.position).entity_id == Some(e.id)
                        &&& e.id < v.next_entity_id
                    } by {
                        let e = w.entities[k];
                        assert(e.wf() && w.map.in_bounds_pos(e.position) && w.map.tile_at(
                            e.position,
                        ).entity_id == Some(e.id) && e.id < w.next_entity_id);
                        assert(e.position != pos);
                        assert(v.map.tile_at(e.position) == w.map.tile_at(e.position));
                    }
                }
                assert(v.occupants_backed()) by {
                    assert forall|p: MapPosition| v.map.in_bounds_pos(p) && (
                    #[trigger] v.map.tile_at(p)).entity_id is Some implies exists|i: int|
                        0 <= i < v.entities.len() && (#[trigger] v.entities[i]).id == v.map.tile_at(
                            p,
                        ).entity_id->0 && v.entities[i].position == p by {
                        assert(p != pos);
                        assert(v.map.tile_at(p) == w.map.tile_at(p));
                        let i0 = choose|i0: int|
                            0 <= i0 < w.entities.len() && (#[trigger] w.entities[i0]).id
                                == w.map.tile_at(p).entity_id->0 && w.entities[i0].position == p;
                        assert(0 <= i0 < v.entities.len() && v.entities[i0].id == v.map.tile_at(
                            p,
                        ).entity_id->0 && v.entities[i0].position == p);
                    }
                }
            },
        }
    }
}

/// Replacing the tile under a vacated position with an unoccupied
/// well-formed tile preserves the world invariant.
pub proof fn lemma_retile_wf(w: WorldStateV, pos: MapPosition, t: Tile)
    requires
        w.wf(),
        w.map.in_bounds_pos(pos),
        w.map.tile_at(pos).entity_id is None,
        t.entity_id is None,
        t.wf(),
    ensures
        (WorldStateV { map: w.map.with_tile(pos, t), ..w }).wf(),
{
    let v = WorldStateV { map: w.map.with_tile(pos, t), ..w };
    lemma_with_tile(w.map, pos, t);
    assert(v.entities_ok()) by {
        assert forall|k: int| 0 <= k < v.entities.len() implies {
            let e = #[trigger] v.entities[k];
            &&& e.wf()
            &&& v.map.in_bounds_pos(e.position)
            &&& v.map.tile_at(e.position).entity_id == Some(e.id)
            &&& e.id < v.next_entity_id
        } by {
            let e = w.entities[k];
            assert(e.wf() && w.map.in_bounds_pos(e.position) && w.map.tile_at(e.position).entity_id
                == Some(e.id) && e.id < w.next_entity_id);
            assert(e.position != pos);
            assert(v.map.tile_at(e.position) == w.map.tile_at(e.position));
        }
    }
    assert(v.occupants_backed()) by {
        assert forall|p: MapPosition| v.map.in_bounds_pos(p) && (
        #[trigger] v.map.tile_at(p)).entity_id is Some implies exists|i: int|
            0 <= i < v.entities.len() && (#[trigger] v.entities[i]).id == v.map.tile_at(
                p,
            ).entity_id->0 && v.entities[i].position == p by {
            assert(p != pos);
            assert(v.map.tile_at(p) == w.map.tile_at(p));
            let i0 = choose|i0: int|
                0 <= i0 < w.entities.len() && (#[trigger] w.entities[i0]).id == w.map.tile_at(
                    p,
                ).entity_id->0 && w.entities[i0].position == p;
            assert(0 <= i0 < v.entities.len() && v.entities[i0].id == v.map.tile_at(p).entity_id->0
                && v.entities[i0].position == p);
        }
    }
}

/// A successful move preserves the world invariant.
pub proof fn lemma_move_wf(w: WorldStateV, id: EntityID, target: MapPosition)
    requires
        w.wf(),
        w.has_entity(id),
        w.map.standable_at(target),
    ensures
        w.spec_move(id, target).wf(),
        w.entities[w.index_of_entity(id)].position != target,
        w.spec_move(id, target).map.tile_at(
            w.entities[w.index_of_entity(id)].position,
        ).entity_id is None,
        w.spec_move(id, target).map.tile_at(target).entity_id == Some(id),
        w.spec_move(id, target).map.tile_at(target).powerup is NoPowerup,
{
    let v = w.spec_move(id, target);
    let i = w.index_of_entity(id);
    assert(0 <= i < w.entities.len() && w.entities[i].id == id);
    let e = w.entities[i];
    let oldpos = e.position;
    assert(w.map.tile_at(oldpos).entity_id == Some(id));
    assert(oldpos != target);

    lemma_index_in_range(w.map.width, w.map.height, oldpos.x as int, oldpos.y as int);
    lemma_index_in_range(w.map.width, w.map.height, target.x as int, target.y as int);
    let m1 = w.map.with_tile(oldpos, Tile { entity_id: None, ..w.map.tile_at(oldpos) });
    let t = w.map.tile_at(target);
    let t2 = Tile { entity_id: Some(id), powerup: PowerupType::NoPowerup, ..t };
    lemma_with_tile(w.map, oldpos, Tile { entity_id: None, ..w.map.tile_at(oldpos) });
    assert(m1.wf()) by {
        assert(w.map.tile_at(oldpos).wf());
        assert((Tile { entity_id: None, ..w.map.tile_at(oldpos) }).wf());
    }
    assert(m1.tile_at(target) == t);
    lemma_with_tile(m1, target, t2);
    assert(v.map == m1.with_tile(target, t2));
    assert(t2.wf()) by {
        assert(t.wf());
        assert(t.tile_type is WalkableGeneric);
    }
    assert(v.map.wf());
    assert(v.map.tile_at(target) == t2);
    assert(v.map.tile_at(oldpos) == m1.tile_at(oldpos));
    assert(v.map.tile_at(oldpos).entity_id is None);

    // The moved actor's new record is well-formed.
    let e2 = v.entities[i];
    assert(e2.wf()) by {
        assert(e.wf());
    }

    assert(v.entities_ok()) by {
        assert forall|k: int| 0 <= k < v.entities.len() implies {
            let ek = #[trigger] v.entities[k];
            &&& ek.wf()
            &&& v.map.in_bounds_pos(ek.position)
            &&& v.map.tile_at(ek.position).entity_id == Some(ek.id)
            &&& ek.id < v.next_entity_id
        } by {
            if k == i {
                assert(v.entities[k] == e2);
                assert(v.map.tile_at(target).entity_id == Some(id));
            } else {
                let ek = w.entities[k];
                assert(v.entities[k] == ek);
                assert(ek.wf() && w.map.in_bounds_pos(ek.position) && w.map.tile_at(
                    ek.position,
                ).entity_id == Some(ek.id) && ek.id < w.next_entity_id);
                if ek.position == oldpos {
                    lemma_occupant_is_unique(w, oldpos, i);
                }
                assert(ek.position != oldpos);
                assert(ek.position != target);
                assert(v.map.tile_at(ek.position) == m1.tile_at(ek.position));
                assert(m1.tile_at(ek.position) == w.map.tile_at(ek.position));
            }
        }
    }
    assert(v.ids_unique()) by {
        assert forall|a: int, b: int| 0 <= a < b < v.entities.len() implies (
        #[trigger] v.entities[a]).id != (#[trigger] v.entities[b]).id by {
            assert(v.entities[a].id == w.entities[a].id);
            assert(v.entities[b].id == w.entities[b].id);
            assert(w.entities[a].id != w.entities[b].id);
        }
    }
    assert(v.occupants_backed()) by {
        assert forall|p: MapPosition| v.map.in_bounds_pos(p) && (
        #[trigger] v.map.tile_at(p)).entity_id is Some implies exists|k: int|
            0 <= k < v.entities.len() && (#[trigger] v.entities[k]).id == v.map.tile_at(
                p,
            ).entity_id->0 && v.entities[k].position == p by {
            if p == target {
                assert(0 <= i < v.entities.len() && v.entities[i].id == v.map.tile_at(
                    p,
                ).entity_id->0 && v.entities[i].position == p);
            } else if p == oldpos {
                assert(v.map.tile_at(p).entity_id is None);
            } else {
                assert(v.map.tile_at(p) == w.map.tile_at(p));
                let i0 = choose|i0: int|
                    0 <= i0 < w.entities.len() && (#[trigger] w.entities[i0]).id == w.map.tile_at(
                        p,
                    ).entity_id->0 && w.entities[i0].position == p;
                assert(i0 != i);
                assert(v.entities[i0] == w.entities[i0]);
                assert(0 <= i0 < v.entities.len() && v.entities[i0].id == v.map.tile_at(
                    p,
                ).entity_id->0 && v.entities[i0].position == p);
            }
        }
    }
}

/// Replacing one actor's record with a well-formed record that keeps its
/// identity and position preserves the world invariant.
pub proof fn lemma_update_entity_wf(w: WorldStateV, i: int, e2: EntityV)
    requires
        w.wf(),
        0 <= i < w.entities.len(),
        e2.wf(),
        e2.id == w.entities[i].id,
        e2.position == w.entities[i].position,
    ensures
        (WorldStateV { entities: w.entities.update(i, e2), ..w }).wf(),
{
    let v = WorldStateV { entities: w.entities.update(i, e2), ..w };
    assert(v.entities_ok()) by {
        assert forall|k: int| 0 <= k < v.entities.len() implies {
            let e = #[trigger] v.entities[k];
            &&& e.wf()
            &&& v.map.in_bounds_pos(e.position)
            &&& v.map.tile_at(e.position).entity_id == Some(e.id)
            &&& e.id < v.next_entity_id
        } by {
            let e0 = w.entities[k];
            assert(e0.wf() && w.map.in_bounds_pos(e0.position) && w.map.tile_at(
                e0.position,
            ).entity_id == Some(e0.id) && e0.id < w.next_entity_id);
        }
    }
    assert(v.ids_unique()) by {
        assert forall|a: int, b: int| 0 <= a < b < v.entities.len() implies (
        #[trigger] v.entities[a]).id != (#[trigger] v.entities[b]).id by {
            assert(v.entities[a].id == w.entities[a].id);
            assert(v.entities[b].id == w.entities[b].id);
            assert(w.entities[a].id != w.entities[b].id);
        }
    }
    assert(v.occupants_backed()) by {
        assert forall|p: MapPosition| v.map.in_bounds_pos(p) && (
        #[trigger] v.map.tile_at(p)).entity_id is Some implies exists|k: int|
            0 <= k < v.entities.len() && (#[trigger] v.entities[k]).id == v.map.tile_at(
                p,
            ).entity_id->0 && v.entities[k].position == p by {
            let i0 = choose|i0: int|
                0 <= i0 < w.entities.len() && (#[trigger] w.entities[i0]).id == w.map.tile_at(
                    p,
                ).entity_id->0 && w.entities[i0].position == p;
            assert(v.entities[i0].id == w.entities[i0].id);
            assert(v.entities[i0].position == w.entities[i0].position);
            assert(0 <= i0 < v.entities.len() && v.entities[i0].id == v.map.tile_at(
                p,
            ).entity_id->0 && v.entities[i0].position == p);
        }
    }
}

/// A turn boundary preserves the world invariant.
pub proof fn lemma_advance_turn_wf(w: WorldStateV)
    requires
        w.wf(),
    ensures
        w.spec_advance_turn().wf(),
{
    let v = w.spec_advance_turn();
    assert(v.entities_ok()) by {
        assert forall|k: int| 0 <= k < v.entities.len() implies {
            let e = #[trigger] v.entities[k];
            &&& e.wf()
            &&& v.map.in_bounds_pos(e.position)
            &&& v.map.tile_at(e.position).entity_id == Some(e.id)
            &&& e.id < v.next_entity_id
        } by {
            let e0 = w.entities[k];
            assert(e0.wf() && w.map.in_bounds_pos(e0.position) && w.map.tile_at(
                e0.position,
            ).entity_id == Some(e0.id) && e0.id < w.next_entity_id);
            assert(v.entities[k] == e0.spec_advance_turn());
        }
    }
    assert(v.ids_unique()) by {
        assert forall|a: int, b: int| 0 <= a < b < v.entities.len() implies (
        #[trigger] v.entities[a]).id != (#[trigger] v.entities[b]).id by {
            assert(v.entities[a].id == w.entities[a].id);
            assert(v.entities[b].id == w.entities[b].id);
            assert(w.entities[a].id != w.entities[b].id);
        }
    }
    assert(v.occupants_backed()) by {
        assert forall|p: MapPosition| v.map.in_bounds_pos(p) && (
        #[trigger] v.map.tile_at(p)).entity_id is Some implies exists|k: int|
            0 <= k < v.entities.len() && (#[trigger] v.entities[k]).id == v.map.tile_at(
                p,
            ).entity_id->0 && v.entities[k].position == p by {
            let i0 = choose|i0: int|
                0 <= i0 < w.entities.len() && (#[trigger] w.entities[i0]).id == w.map.tile_at(
                    p,
                ).entity_id->0 && w.entities[i0].position == p;
            assert(v.entities[i0] == w.entities[i0].spec_advance_turn());
            assert(0 <= i0 < v.entities.len() && v.entities[i0].id == v.map.tile_at(
                p,
            ).entity_id->0 && v.entities[i0].position == p);
        }
    }
}

impl WorldState {
    /// A fresh world: an all-walkable map of the default size, no actors,
    /// identities starting at zero.
    pub fn new() -> (r: WorldState)
        ensures
            r@.wf(),
            r@ == WorldStateV::spec_fresh(),
    {
        let w = WorldState {
            map: GameMap::new(WORLD_WIDTH, WORLD_HEIGHT),
            entities: Vec::new(),
            next_entity_id: 0,
        };
        proof {
            let f = WorldStateV::spec_fresh();
            assert(w@.map.tiles =~= f.map.tiles);
            assert(w@.entities =~= f.entities);
            assert(w@.map == f.map);
            assert(w@ == f);
        }
        w
    }

    /// The index into the actor collection of the actor with the identity,
    /// if any actor carries it.
    pub fn find_entity_index(&self, id: EntityID) -> (r: Option<usize>)
        requires
            self@.ids_unique(),
        ensures
            r is Some <==> self@.has_entity(id),
            r matches Some(i) ==> i == self@.index_of_entity(id) && i < self@.entities.len()
                && self@.entities[i as int].id == id,
    {
        let n = self.entities.len();
        let mut k: usize = 0;
        while k < n
            invariant
                n == self@.entities.len(),
                k <= n,
                self@.ids_unique(),
                forall|i: int| 0 <= i < k ==> (#[trigger] self@.entities[i]).id != id,
            decreases n - k,
        {
            if self.entities[k].id() == id {
                proof {
                    let w = self@.index_of_entity(id);
                    assert(self@.entities[k as int].id == id);
                    assert(self@.has_entity(id));
                    assert(0 <= w < self@.entities.len() && self@.entities[w].id == id);
                    if w != k as int {
                        if w < k as int {
                            assert(self@.entities[w].id != self@.entities[k as int].id);
                        } else {
                            assert(self@.entities[k as int].id != self@.entities[w].id);
                        }
                    }
                }
                return Some(k);
            }
            k = k + 1;
        }
        proof {
            if self@.has_entity(id) {
                let w = choose|i: int|
                    0 <= i < self@.entities.len() && (#[trigger] self@.entities[i]).id == id;
                assert(self@.entities[w].id != id);
            }
        }
        None
    }

    /// The actor with the identity, if any. An absent identity is a valid
    /// "not found" result.
    pub fn get_entity(&self, id: EntityID) -> (r: Option<&Entity>)
        requires
            self@.ids_unique(),
        ensures
            r is Some <==> self@.has_entity(id),
            r matches Some(e) ==> e@ == self@.entities[self@.index_of_entity(id)],
    {
        match self.find_entity_index(id) {
            Some(i) => Some(&self.entities[i]),
            None => None,
        }
    }

    /// A mutable borrow of the actor with the identity, if any. The world
    /// afterwards holds whatever the caller leaves behind the borrow; the
    /// consistency invariant is the caller's to re-establish.
    pub fn get_entity_mut(&mut self, id: EntityID) -> (r: Option<&mut Entity>)
        requires
            old(self)@.ids_unique(),
        ensures
            r is Some <==> old(self)@.has_entity(id),
            r matches Some(e) ==> {
                let i = old(self)@.index_of_entity(id);
                &&& *e == old(self).entities[i as int]
                &&& final(self)@.entities.len() == old(self)@.entities.len()
                &&& final(self)@.entities[i] == final(e)@
                &&& forall|j: int|
                    0 <= j < old(self)@.entities.len() && j != i
                        ==> #[trigger] final(self)@.entities[j] == old(self)@.entities[j]
                &&& final(self)@.map == old(self)@.map
                &&& final(self)@.next_entity_id == old(self)@.next_entity_id
            },
            r is None ==> *final(self) == *old(self),
    {
        match self.find_entity_index(id) {
            Some(i) => Some(&mut self.entities[i]),
            None => None,
        }
    }

    /// The identity recorded on the tile at the position, if the position is
    /// in bounds and the tile is occupied.
    pub fn get_entity_id_at(&self, pos: MapPosition) -> (r: Option<EntityID>)
        requires
            self@.map.wf(),
        ensures
            r == if self@.map.in_bounds_pos(pos) {
                self@.map.tile_at(pos).entity_id
            } else {
                None::<EntityID>
            },
    {
        match self.map.get_tile(&pos) {
            Some(t) => t.entity_id(),
            None => None,
        }
    }

    /// Places a new actor at the position. Fails, changing nothing, when the
    /// position is not standable (out of bounds, solid, or occupied) or when
    /// the identity space is exhausted; otherwise allocates a fresh identity,
    /// appends the actor and records it on the target tile.
    pub fn spawn_entity(
        &mut self,
        pos: MapPosition,
        symbol: char,
        name: Vec<u8>,
        max_health: u32,
        max_energy: u32,
        team: u32,
        is_ai: bool,
    ) -> (r: Option<EntityID>)
        requires
            old(self)@.wf(),
        ensures
            final(self)@.wf(),
            r is Some <==> old(self)@.map.standable_at(pos) && old(self)@.next_entity_id
                < EntityID::MAX,
            r is None ==> *final(self) == *old(self),
            r matches Some(id) ==> id == old(self)@.next_entity_id && final(self)@ == old(
                self,
            )@.spec_spawn(pos, symbol, name@, max_health, max_energy, team, is_ai),
    {
        if !self.map.is_standable(&pos) {
            return None;
        }
        if self.next_entity_id == EntityID::MAX {
            return None;
        }
        let id = self.next_entity_id;
        self.next_entity_id = self.next_entity_id + 1;

        let mut new_entity = Entity::new(id, symbol, name, pos, team, max_health, max_energy);
        if is_ai {
            new_entity.set_ai(true);
        }
        proof {
            assert(new_entity@ == (EntityV {
                is_ai,
                ..EntityV::spec_new(id, symbol, name@, pos, team, max_health, max_energy)
            }));
        }
        self.entities.push(new_entity);

        let tile = *self.map.get_tile(&pos).unwrap();
        let mut tile2 = tile;
        tile2.set_entity_id(Some(id));
        self.map.set_tile(&pos, tile2);

        proof {
            self.lemma_spawn_wf(old(self)@, pos, id);
            let sp = old(self)@.spec_spawn(pos, symbol, name@, max_health, max_energy, team, is_ai);
            assert(self@.entities =~= sp.entities);
            assert(self@.map == sp.map);
            assert(self@ == sp);
        }
        Some(id)
    }

    /// The spawn operation re-establishes the world invariant.
    proof fn lemma_spawn_wf(&self, prev: WorldStateV, pos: MapPosition, id: EntityID)
        requires
            prev.wf(),
            prev.map.standable_at(pos),
            prev.next_entity_id < EntityID::MAX,
            id == prev.next_entity_id,
            self@.map == prev.map.with_tile(
                pos,
                Tile { entity_id: Some(id), ..prev.map.tile_at(pos) },
            ),
            self@.entities.len() == prev.entities.len() + 1,
            forall|i: int|
                0 <= i < prev.entities.len() ==> self@.entities[i] == prev.entities[i],
            self@.entities[prev.entities.len() as int].id == id,
            self@.entities[prev.entities.len() as int].position == pos,
            self@.entities[prev.entities.len() as int].wf(),
            self@.next_entity_id == prev.next_entity_id + 1,
        ensures
            self@.wf(),
    {
        let w = self@;
        let n = prev.entities.len() as int;
        let idx = prev.map.index_of(pos.x as int, pos.y as int);
        lemma_index_in_range(prev.map.width, prev.map.height, pos.x as int, pos.y as int);

        // Tiles elsewhere are untouched; positions other than `pos` keep
        // their tile because row-major indexes are injective.
        assert forall|p: MapPosition| w.map.in_bounds_pos(p) && p != pos implies w.map.tile_at(p)
            == prev.map.tile_at(p) by {
            lemma_index_in_range(prev.map.width, prev.map.height, p.x as int, p.y as int);
            lemma_index_injective(
                prev.map.width,
                prev.map.height,
                p.x as int,
                p.y as int,
                pos.x as int,
                pos.y as int,
            );
        }

        assert(w.map.wf()) by {
            assert forall|i: int| 0 <= i < w.map.tiles.len() implies (
            #[trigger] w.map.tiles[i]).wf() by {
                if i != idx {
                    assert(w.map.tiles[i] == prev.map.tiles[i]);
                    assert(prev.map.tiles[i].wf());
                }
            }
        }

        assert(w.entities_ok()) by {
            assert forall|i: int| 0 <= i < w.entities.len() implies {
                let e = #[trigger] w.entities[i];
                &&& e.wf()
                &&& w.map.in_bounds_pos(e.position)
                &&& w.map.tile_at(e.position).entity_id == Some(e.id)
                &&& e.id < w.next_entity_id
            } by {
                if i < n {
                    let e = prev.entities[i];
                    assert(e.wf() && prev.map.in_bounds_pos(e.position) && prev.map.tile_at(
                        e.position,
                    ).entity_id == Some(e.id) && e.id < prev.next_entity_id);
                    // No old actor stands at `pos`: its tile was unoccupied.
                    assert(e.position != pos);
                    assert(w.map.tile_at(e.position) == prev.map.tile_at(e.position));
                } else {
                    assert(w.map.tile_at(pos).entity_id == Some(id));
                }
            }
        }

        assert(w.ids_unique()) by {
            assert forall|i: int, j: int| 0 <= i < j < w.entities.len() implies (
            #[trigger] w.entities[i]).id != (#[trigger] w.entities[j]).id by {
                if j < n {
                    assert(prev.entities[i].id != prev.entities[j].id);
                } else {
                    assert(prev.entities[i].id < prev.next_entity_id);
                }
            }
        }

        assert(w.occupants_backed()) by {
            assert forall|p: MapPosition| w.map.in_bounds_pos(p) && (
            #[trigger] w.map.tile_at(p)).entity_id is Some implies exists|i: int|
                0 <= i < w.entities.len() && (#[trigger] w.entities[i]).id == w.map.tile_at(
                    p,
                ).entity_id->0 && w.entities[i].position == p by {
                if p == pos {
                    assert(0 <= n < w.entities.len() && w.entities[n].id == w.map.tile_at(
                        p,
                    ).entity_id->0 && w.entities[n].position == p);
                } else {
                    assert(w.map.tile_at(p) == prev.map.tile_at(p));
                    let i = choose|i: int|
                        0 <= i < prev.entities.len() && (#[trigger] prev.entities[i]).id
                            == prev.map.tile_at(p).entity_id->0 && prev.entities[i].position == p;
                    assert(0 <= i < w.entities.len() && w.entities[i].id == w.map.tile_at(
                        p,
                    ).entity_id->0 && w.entities[i].position == p);
                }
            }
        }
    }

    /// Vacates a position: removes the actor recorded there (if any) from
    /// the collection and strips the tile of its occupant and pickup. Out of
    /// bounds this is a no-op.
    fn clear_pos(&mut self, pos: MapPosition)
        requires
            old(self)@.wf(),
        ensures
            final(self)@ == old(self)@.spec_clear_pos(pos),
            final(self)@.wf(),
    {
        proof {
            lemma_clear_pos_wf(old(self)@, pos);
        }
        let t: Tile = match self.map.get_tile(&pos) {
            Some(tile) => *tile,
            None => {
                return ;
            },
        };
        if let Some(id) = t.entity_id() {
            proof {
                assert(old(self)@.map.tile_at(pos).entity_id is Some);
                let j = choose|j: int|
                    0 <= j < old(self)@.entities.len() && (#[trigger] old(self)@.entities[j]).id
                        == old(self)@.map.tile_at(pos).entity_id->0 && old(
                        self,
                    )@.entities[j].position == pos;
                assert(old(self)@.has_entity(id));
            }
            let idx = self.find_entity_index(id).unwrap();
            self.entities.remove(idx);
        }
        let mut t2 = t;
        t2.set_entity_id(None);
        t2.set_powerup(PowerupType::NoPowerup);
        self.map.set_tile(&pos, t2);
        proof {
            let v = old(self)@.spec_clear_pos(pos);
            assert(self@.entities =~= v.entities);
            assert(self@.map == v.map);
            assert(self@ == v);
        }
    }

    /// Builds a wall at the position: removes any actor standing there,
    /// then converts the tile when it is in bounds and walkable. Returns
    /// whether the wall was built; on failure nothing changes.
    pub fn build_wall(&mut self, pos: MapPosition) -> (r: bool)
        requires
            old(self)@.wf(),
        ensures
            final(self)@.wf(),
            r == old(self)@.map.walkable_at(pos),
            final(self)@ == old(self)@.spec_build_wall(pos),
            r ==> final(self)@.map.tile_at(pos) == Tile::spec_wall(),
            !r ==> *final(self) == *old(self),
    {
        if !self.map.is_walkable(&pos) {
            return false;
        }
        self.clear_pos(pos);
        proof {
            lemma_clear_pos_wf(old(self)@, pos);
        }
        let built = self.map.build_wall(&pos);
        proof {
            assert(built);
            let cleared = old(self)@.spec_clear_pos(pos);
            lemma_retile_wf(cleared, pos, Tile::spec_wall());
            assert(self@.map == cleared.map.with_tile(pos, Tile::spec_wall()));
            assert(self@ == (WorldStateV {
                map: cleared.map.with_tile(pos, Tile::spec_wall()),
                ..cleared
            }));
            lemma_with_tile(cleared.map, pos, Tile::spec_wall());
        }
        built
    }

    /// Forces the tile at the position to be a fresh walkable floor,
    /// removing any actor standing there. Out of bounds this is a no-op.
    pub fn build_floor(&mut self, pos: MapPosition)
        requires
            old(self)@.wf(),
        ensures
            final(self)@.wf(),
            final(self)@ == old(self)@.spec_build_floor(pos),
            old(self)@.map.in_bounds_pos(pos) ==> final(self)@.map.tile_at(pos)
                == Tile::spec_walkable(),
            !old(self)@.map.in_bounds_pos(pos) ==> *final(self) == *old(self),
    {
        if self.map.get_index_i32(pos.x(), pos.y()).is_none() {
            return ;
        }
        self.clear_pos(pos);
        proof {
            lemma_clear_pos_wf(old(self)@, pos);
        }
        let t = *self.map.get_tile(&pos).unwrap();
        let mut t2 = t;
        t2.set_type(TileType::WalkableGeneric);
        self.map.set_tile(&pos, t2);
        proof {
            let cleared = old(self)@.spec_clear_pos(pos);
            assert(t2 == Tile::spec_walkable());
            lemma_retile_wf(cleared, pos, Tile::spec_walkable());
            assert(self@.map == cleared.map.with_tile(pos, Tile::spec_walkable()));
            assert(self@ == (WorldStateV {
                map: cleared.map.with_tile(pos, Tile::spec_walkable()),
                ..cleared
            }));
            lemma_with_tile(cleared.map, pos, Tile::spec_walkable());
        }
    }

    /// Moves the actor with the identity to the target position. The move
    /// is one atomic transition: either it is blocked (the target is not
    /// standable) and nothing changes, or the old tile loses its occupant,
    /// the target tile gains it, the actor's position is updated, and a
    /// pickup on the target is removed and applied exactly once (a healing
    /// potion restores `HEAL_AMOUNT` health, capped at the maximum; other
    /// pickup effects are not yet defined and only leave the tile).
    pub fn move_entity(&mut self, id: EntityID, target: MapPosition) -> (r: MoveOutcome)
        requires
            old(self)@.wf(),
            old(self)@.has_entity(id),
        ensures
            final(self)@.wf(),
            r is Blocked <==> !old(self)@.map.standable_at(target),
            r is Blocked ==> *final(self) == *old(self),
            !(r is Blocked) ==> final(self)@ == old(self)@.spec_move(id, target),
            !(r is Blocked) ==> {
                let w = old(self)@;
                let e = w.entities[w.index_of_entity(id)];
                &&& final(self)@.map.tile_at(e.position).entity_id is None
                &&& final(self)@.map.tile_at(target).entity_id == Some(id)
                &&& final(self)@.map.tile_at(target).powerup is NoPowerup
                &&& final(self)@.entities[w.index_of_entity(id)].position == target
                &&& r == (if w.map.tile_at(target).powerup is NoPowerup {
                    MoveOutcome::Moved
                } else {
                    MoveOutcome::MovedWithPickup(w.map.tile_at(target).powerup)
                })
            },
    {
        if !self.map.is_standable(&target) {
            return MoveOutcome::Blocked;
        }
        proof {
            lemma_move_wf(old(self)@, id, target);
        }
        let idx = self.find_entity_index(id).unwrap();
        let oldpos = self.entities[idx].position();

        let told = *self.map.get_tile(&oldpos).unwrap();
        let mut t1 = told;
        t1.set_entity_id(None);
        self.map.set_tile(&oldpos, t1);
        proof {
            lemma_index_in_range(
                old(self)@.map.width,
                old(self)@.map.height,
                oldpos.x as int,
                oldpos.y as int,
            );
            assert(old(self)@.map.tile_at(oldpos).wf());
            assert(t1.wf());
            lemma_with_tile(old(self)@.map, oldpos, t1);
            assert(self@.map.wf());
        }

        let tnew = *self.map.get_tile(&target).unwrap();
        let mut t2 = tnew;
        t2.set_entity_id(Some(id));
        let pu = t2.take_powerup();
        self.map.set_tile(&target, t2);

        proof {
            assert(old(self)@.entities[idx as int].wf());
        }
        let ent = &mut self.entities[idx];
        ent.set_position(target);
        if matches!(pu, PowerupType::HealingPotion) {
            ent.heal(HEAL_AMOUNT);
        }

        proof {
            let v = old(self)@.spec_move(id, target);
            assert(self@.entities =~= v.entities);
            assert(self@.map == v.map);
            assert(self@ == v);
        }
        if pu.is_some() {
            MoveOutcome::MovedWithPickup(pu)
        } else {
            MoveOutcome::Moved
        }
    }

    /// Advances simulated time by one turn: every actor's stun counter
    /// moves one step toward zero (never below), and actors that are no
    /// longer stunned have their energy refilled to the maximum. This is
    /// the only place simulated time elapses.
    #[verifier::loop_isolation(false)]
    pub fn advance_turn(&mut self)
        requires
            old(self)@.wf(),
        ensures
            final(self)@.wf(),
            final(self)@ == old(self)@.spec_advance_turn(),
    {
        let n = self.entities.len();
        let ghost orig: Seq<EntityV> = self@.entities;
        let mut k: usize = 0;
        while k < n
            invariant
                n == self@.entities.len(),
                n == orig.len(),
                k <= n,
                self@.map == old(self)@.map,
                self@.next_entity_id == old(self)@.next_entity_id,
                forall|j: int| 0 <= j < k ==> self@.entities[j] == orig[j].spec_advance_turn(),
                forall|j: int| k <= j < n ==> self@.entities[j] == orig[j],
            decreases n - k,
        {
            let ghost prev = self@.entities;
            let ent = &mut self.entities[k];
            ent.reduce_stun();
            ent.refill_energy();
            k = k + 1;
            proof {
                assert forall|j: int| 0 <= j < k implies self@.entities[j]
                    == orig[j].spec_advance_turn() by {
                    if j == k - 1 {
                        assert(self@.entities[j] == prev[j].spec_advance_turn());
                        assert(prev[j] == orig[j]);
                    } else {
                        assert(self@.entities[j] == prev[j]);
                        assert(prev[j] == orig[j].spec_advance_turn());
                    }
                }
            }
        }
        proof {
            lemma_advance_turn_wf(old(self)@);
            let v = old(self)@.spec_advance_turn();
            assert(self@.entities =~= v.entities);
            assert(self@ == v);
        }
    }

    /// Marks or unmarks the actor with the identity as selected. An absent
    /// identity changes nothing.
    pub fn set_entity_selected(&mut self, id: EntityID, sel: bool)
        requires
            old(self)@.wf(),
        ensures
            final(self)@.wf(),
            final(self)@ == old(self)@.spec_set_selected(id, sel),
            !old(self)@.has_entity(id) ==> *final(self) == *old(self),
    {
        match self.find_entity_index(id) {
            Some(idx) => {
                proof {
                    assert(old(self)@.entities[idx as int].wf());
                }
                let ent = &mut self.entities[idx];
                ent.set_selected(sel);
                proof {
                    let i = old(self)@.index_of_entity(id);
                    let e2 = EntityV { is_selected: sel, ..old(self)@.entities[i] };
                    lemma_update_entity_wf(old(self)@, i, e2);
                    assert(self@.entities =~= old(self)@.entities.update(i, e2));
                    assert(self@ == (WorldStateV {
                        entities: old(self)@.entities.update(i, e2),
                        ..old(self)@
                    }));
                }
            },
            None => {},
        }
    }
}

} // verus!
