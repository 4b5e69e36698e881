//! The entity/component world: an append-only entity allocator with one
//! sparse column per component type, keyed by entity id.
//!
//! Entity ids are never reused: deleting an entity clears its components and
//! marks it dead, and fresh entities are always appended. The systems
//! iterate columns in entity-id order, which keeps a replay with identical
//! inputs deterministic.

use vstd::prelude::*;
use crate::components::{Position, Movement, Circle, Player, Bullet};
use crate::components::{wf_position, wf_movement, wf_circle};
use crate::remotes::PlayerInput;

verus! {

/// An entity identifier: an index into the world's component columns.
pub type Entity = usize;

/// Inserting for a missing or deleted entity fails with this error.
#[derive(Clone, Copy, PartialEq, Eq, Structural, Debug)]
pub enum WorldError {
    MissingEntity,
}

/// The abstract state of a world: one sequence per component column plus
/// the liveness of each entity id.
#[verifier::ext_equal]
pub struct WorldModel {
    pub alive: Seq<bool>,
    pub positions: Seq<Option<Position>>,
    pub movements: Seq<Option<Movement>>,
    pub circles: Seq<Option<Circle>>,
    pub players: Seq<Option<Player>>,
    pub bullets: Seq<Option<Bullet>>,
    pub inputs: Seq<Option<PlayerInput>>,
}

/// The world: entity liveness plus one sparse component column per type.
pub struct World {
    pub alive: Vec<bool>,
    pub positions: Vec<Option<Position>>,
    pub movements: Vec<Option<Movement>>,
    pub circles: Vec<Option<Circle>>,
    pub players: Vec<Option<Player>>,
    pub bullets: Vec<Option<Bullet>>,
    pub inputs: Vec<Option<PlayerInput>>,
}

impl View for World {
    type V = WorldModel;

    open spec fn view(&self) -> WorldModel {
        WorldModel {
            alive: self.alive@,
            positions: self.positions@,
            movements: self.movements@,
            circles: self.circles@,
            players: self.players@,
            bullets: self.bullets@,
            inputs: self.inputs@,
        }
    }
}

impl WorldModel {
    /// The number of entity ids ever allocated.
    pub open spec fn len(self) -> nat {
        self.alive.len()
    }

    /// All columns cover the same entity ids.
    pub open spec fn columns_consistent(self) -> bool {
        &&& self.positions.len() == self.len()
        &&& self.movements.len() == self.len()
        &&& self.circles.len() == self.len()
        &&& self.players.len() == self.len()
        &&& self.bullets.len() == self.len()
        &&& self.inputs.len() == self.len()
    }

    /// A dead entity holds no components.
    pub open spec fn dead_are_empty(self) -> bool {
        forall|e: int| 0 <= e < self.len() && !self.alive[e] ==> {
            &&& (#[trigger] self.positions[e]) is None
            &&& self.movements[e] is None
            &&& self.circles[e] is None
            &&& self.players[e] is None
            &&& self.bullets[e] is None
            &&& self.inputs[e] is None
        }
    }

    /// Every stored geometry or movement value is well formed.
    pub open spec fn values_wf(self) -> bool {
        &&& forall|e: int| 0 <= e < self.len() && (#[trigger] self.positions[e]) is Some
            ==> wf_position(self.positions[e].unwrap())
        &&& forall|e: int| 0 <= e < self.len() && (#[trigger] self.movements[e]) is Some
            ==> wf_movement(self.movements[e].unwrap())
        &&& forall|e: int| 0 <= e < self.len() && (#[trigger] self.circles[e]) is Some
            ==> wf_circle(self.circles[e].unwrap())
    }

    /// At most one player entity per stable player id.
    pub open spec fn player_ids_unique(self) -> bool {
        forall|e1: int, e2: int|
            0 <= e1 < self.len() && 0 <= e2 < self.len() && e1 != e2
                && (#[trigger] self.players[e1]) is Some && (#[trigger] self.players[e2]) is Some
            ==> self.players[e1].unwrap().id@ != self.players[e2].unwrap().id@
    }

    /// World well-formedness.
    pub open spec fn wf(self) -> bool {
        &&& self.columns_consistent()
        &&& self.dead_are_empty()
        &&& self.values_wf()
        &&& self.player_ids_unique()
    }

    /// This model with one fresh, component-free entity appended.
    pub open spec fn append_empty(self) -> WorldModel {
        WorldModel {
            alive: self.alive.push(true),
            positions: self.positions.push(None),
            movements: self.movements.push(None),
            circles: self.circles.push(None),
            players: self.players.push(None),
            bullets: self.bullets.push(None),
            inputs: self.inputs.push(None),
        }
    }

    /// This model with entity `e` dead and stripped of all components.
    pub open spec fn delete_at(self, e: int) -> WorldModel {
        WorldModel {
            alive: self.alive.update(e, false),
            positions: self.positions.update(e, None),
            movements: self.movements.update(e, None),
            circles: self.circles.update(e, None),
            players: self.players.update(e, None),
            bullets: self.bullets.update(e, None),
            inputs: self.inputs.update(e, None),
        }
    }

}

impl World {
    /// An empty world with no entities.
    pub fn new() -> (r: World)
        ensures
            r@.len() == 0,
            r@.wf(),
    {
        World {
            alive: Vec::new(),
            positions: Vec::new(),
            movements: Vec::new(),
            circles: Vec::new(),
            players: Vec::new(),
            bullets: Vec::new(),
            inputs: Vec::new(),
        }
    }

    /// The number of entity ids ever allocated.
    pub fn len(&self) -> (r: usize)
        requires
            self@.columns_consistent(),
        ensures
            r == self@.len(),
    {
        self.alive.len()
    }

    /// Whether entity `e` is currently alive.
    pub fn is_alive(&self, e: Entity) -> (r: bool)
        requires
            e < self@.len(),
        ensures
            r == self@.alive[e as int],
    {
        self.alive[e]
    }

    /// Allocate a fresh entity with no components; its id is never one that
    /// was handed out before.
    pub fn create_entity(&mut self) -> (e: Entity)
        requires
            old(self)@.wf(),
            old(self)@.len() < usize::MAX,
        ensures
            e == old(self)@.len(),
            final(self)@ == old(self)@.append_empty(),
            final(self)@.wf(),
    {
        let e = self.alive.len();
        self.alive.push(true);
        self.positions.push(None);
        self.movements.push(None);
        self.circles.push(None);
        self.players.push(None);
        self.bullets.push(None);
        self.inputs.push(None);
        proof {
            assert(self@ =~= old(self)@.append_empty());
        }
        e
    }

    /// Delete entity `e`: mark it dead and remove all its components
    /// atomically.
    pub fn delete_entity(&mut self, e: Entity)
        requires
            old(self)@.wf(),
            e < old(self)@.len(),
        ensures
            final(self)@ == old(self)@.delete_at(e as int),
            final(self)@.wf(),
    {
        self.alive[e] = false;
        self.positions[e] = None;
        self.movements[e] = None;
        self.circles[e] = None;
        self.players[e] = None;
        self.bullets[e] = None;
        self.inputs[e] = None;
        proof {
            assert(self@ =~= old(self)@.delete_at(e as int));
        }
    }

    /// Attach (or replace) a position on a live entity.
    pub fn insert_position(&mut self, e: Entity, p: Position) -> (r: Result<(), WorldError>)
        requires
            old(self)@.wf(),
            wf_position(p),
        ensures
            final(self)@.wf(),
            r is Ok <==> e < old(self)@.len() && old(self)@.alive[e as int],
            r is Ok ==> final(self)@ == (WorldModel {
                positions: old(self)@.positions.update(e as int, Some(p)),
                ..old(self)@
            }),
            r is Err ==> *final(self) == *old(self),
    {
        if e < self.alive.len() && self.alive[e] {
            self.positions[e] = Some(p);
            proof {
                assert(self@ =~= (WorldModel {
                    positions: old(self)@.positions.update(e as int, Some(p)),
                    ..old(self)@
                }));
            }
            Ok(())
        } else {
            Err(WorldError::MissingEntity)
        }
    }

    /// Attach (or replace) a movement on a live entity.
    pub fn insert_movement(&mut self, e: Entity, m: Movement) -> (r: Result<(), WorldError>)
        requires
            old(self)@.wf(),
            wf_movement(m),
        ensures
            final(self)@.wf(),
            r is Ok <==> e < old(self)@.len() && old(self)@.alive[e as int],
            r is Ok ==> final(self)@ == (WorldModel {
                movements: old(self)@.movements.update(e as int, Some(m)),
                ..old(self)@
            }),
            r is Err ==> *final(self) == *old(self),
    {
        if e < self.alive.len() && self.alive[e] {
            self.movements[e] = Some(m);
            proof {
                assert(self@ =~= (WorldModel {
                    movements: old(self)@.movements.update(e as int, Some(m)),
                    ..old(self)@
                }));
            }
            Ok(())
        } else {
            Err(WorldError::MissingEntity)
        }
    }

    /// Attach (or replace) hit geometry on a live entity.
    pub fn insert_circle(&mut self, e: Entity, c: Circle) -> (r: Result<(), WorldError>)
        requires
            old(self)@.wf(),
            wf_circle(c),
        ensures
            final(self)@.wf(),
            r is Ok <==> e < old(self)@.len() && old(self)@.alive[e as int],
            r is Ok ==> final(self)@ == (WorldModel {
                circles: old(self)@.circles.update(e as int, Some(c)),
                ..old(self)@
            }),
            r is Err ==> *final(self) == *old(self),
    {
        if e < self.alive.len() && self.alive[e] {
            self.circles[e] = Some(c);
            proof {
                assert(self@ =~= (WorldModel {
                    circles: old(self)@.circles.update(e as int, Some(c)),
                    ..old(self)@
                }));
            }
            Ok(())
        } else {
            Err(WorldError::MissingEntity)
        }
    }

    /// Attach (or replace) a player state on a live entity. The stable id
    /// must not already belong to another player entity.
    pub fn insert_player(&mut self, e: Entity, p: Player) -> (r: Result<(), WorldError>)
        requires
            old(self)@.wf(),
            forall|o: int| 0 <= o < old(self)@.len() && o != e
                && (#[trigger] old(self)@.players[o]) is Some
                ==> old(self)@.players[o].unwrap().id@ != p.id@,
        ensures
            final(self)@.wf(),
            r is Ok <==> e < old(self)@.len() && old(self)@.alive[e as int],
            r is Ok ==> final(self)@ == (WorldModel {
                players: old(self)@.players.update(e as int, Some(p)),
                ..old(self)@
            }),
            r is Err ==> *final(self) == *old(self),
    {
        if e < self.alive.len() && self.alive[e] {
            self.players[e] = Some(p);
            proof {
                assert(self@ =~= (WorldModel {
                    players: old(self)@.players.update(e as int, Some(p)),
                    ..old(self)@
                }));
            }
            Ok(())
        } else {
            Err(WorldError::MissingEntity)
        }
    }

    /// Attach (or replace) a bullet state on a live entity.
    pub fn insert_bullet(&mut self, e: Entity, b: Bullet) -> (r: Result<(), WorldError>)
        requires
            old(self)@.wf(),
        ensures
            final(self)@.wf(),
            r is Ok <==> e < old(self)@.len() && old(self)@.alive[e as int],
            r is Ok ==> final(self)@ == (WorldModel {
                bullets: old(self)@.bullets.update(e as int, Some(b)),
                ..old(self)@
            }),
            r is Err ==> *final(self) == *old(self),
    {
        if e < self.alive.len() && self.alive[e] {
            self.bullets[e] = Some(b);
            proof {
                assert(self@ =~= (WorldModel {
                    bullets: old(self)@.bullets.update(e as int, Some(b)),
                    ..old(self)@
                }));
            }
            Ok(())
        } else {
            Err(WorldError::MissingEntity)
        }
    }

    /// Attach (or replace) a pending input on a live entity.
    pub fn insert_input(&mut self, e: Entity, inp: PlayerInput) -> (r: Result<(), WorldError>)
        requires
            old(self)@.wf(),
        ensures
            final(self)@.wf(),
            r is Ok <==> e < old(self)@.len() && old(self)@.alive[e as int],
            r is Ok ==> final(self)@ == (WorldModel {
                inputs: old(self)@.inputs.update(e as int, Some(inp)),
                ..old(self)@
            }),
            r is Err ==> *final(self) == *old(self),
    {
        if e < self.alive.len() && self.alive[e] {
            self.inputs[e] = Some(inp);
            proof {
                assert(self@ =~= (WorldModel {
                    inputs: old(self)@.inputs.update(e as int, Some(inp)),
                    ..old(self)@
                }));
            }
            Ok(())
        } else {
            Err(WorldError::MissingEntity)
        }
    }

    /// The position of entity `e`, if any.
    pub fn position(&self, e: Entity) -> (r: &Option<Position>)
        requires
            self@.columns_consistent(),
            e < self@.len(),
        ensures
            *r == self@.positions[e as int],
    {
        &self.positions[e]
    }

    /// The movement of entity `e`, if any.
    pub fn movement(&self, e: Entity) -> (r: &Option<Movement>)
        requires
            self@.columns_consistent(),
            e < self@.len(),
        ensures
            *r == self@.movements[e as int],
    {
        &self.movements[e]
    }

    /// The hit geometry of entity `e`, if any.
    pub fn circle(&self, e: Entity) -> (r: &Option<Circle>)
        requires
            self@.columns_consistent(),
            e < self@.len(),
        ensures
            *r == self@.circles[e as int],
    {
        &self.circles[e]
    }

    /// The player state of entity `e`, if any.
    pub fn player(&self, e: Entity) -> (r: &Option<Player>)
        requires
            self@.columns_consistent(),
            e < self@.len(),
        ensures
            *r == self@.players[e as int],
    {
        &self.players[e]
    }

    /// The bullet state of entity `e`, if any.
    pub fn bullet(&self, e: Entity) -> (r: &Option<Bullet>)
        requires
            self@.columns_consistent(),
            e < self@.len(),
        ensures
            *r == self@.bullets[e as int],
    {
        &self.bullets[e]
    }

    /// The pending input of entity `e`, if any.
    pub fn input(&self, e: Entity) -> (r: &Option<PlayerInput>)
        requires
            self@.columns_consistent(),
            e < self@.len(),
        ensures
            *r == self@.inputs[e as int],
    {
        &self.inputs[e]
    }
}

} // verus!
