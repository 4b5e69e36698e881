//! The per-tick simulation systems.
//!
//! Each tick runs input resolution first, then the phase-dependent handler:
//! configuration handling before a game, or intent resolution followed by
//! the world update (movement with wall collision, bullet-player collision,
//! bullet spawning, cooldown decay) while a game runs. All systems iterate
//! entities in id order, so a replay with identical inputs is identical.
//!
//! Bullet lifetime: a bullet whose path is blocked (by a wall sample or the
//! arena bound) simply stops and stays; bullets are never despawned.

use vstd::prelude::*;
use crate::components::{
    clamp_dir_spec, scale_by_unit_spec, wf_circle, wf_movement, wf_position,
    AimStatus, Circle, Movement, Player, Position, ReadyStatus, ShootStatus,
    ARENA_LIMIT, UNITS_PER_BLOCK,
};
use crate::map::{Block, GameMap};
use crate::remotes::{ConfigurationInput, RemoteInput};
use crate::world::{World, WorldModel};

verus! {

/// The world position of the center of a block.
pub open spec fn block_center_spec(b: Block) -> Position {
    Position {
        x: (b.0 as int * (UNITS_PER_BLOCK as int) + (UNITS_PER_BLOCK as int) / 2) as i64,
        y: (b.1 as int * (UNITS_PER_BLOCK as int) + (UNITS_PER_BLOCK as int) / 2) as i64,
    }
}

/// The center of `block` in world coordinates.
pub fn get_position_block_center(block: Block) -> (r: Position)
    ensures
        r == block_center_spec(block),
        wf_position(r),
{
    Position {
        x: block.0 as i64 * UNITS_PER_BLOCK + UNITS_PER_BLOCK / 2,
        y: block.1 as i64 * UNITS_PER_BLOCK + UNITS_PER_BLOCK / 2,
    }
}

/// The block coordinate a world coordinate falls in, saturated into one
/// byte at either end.
pub open spec fn block_coord_spec(v: int) -> int {
    if v < 0 {
        0
    } else if v / (UNITS_PER_BLOCK as int) > 255 {
        255
    } else {
        v / (UNITS_PER_BLOCK as int)
    }
}

/// The block coordinate a world coordinate falls in.
pub fn block_coord(v: i64) -> (r: u8)
    ensures
        r as int == block_coord_spec(v as int),
{
    if v < 0 {
        0
    } else {
        let b = (v as u64) / (UNITS_PER_BLOCK as u64);
        if b > 255 {
            255
        } else {
            b as u8
        }
    }
}

/// Whether one hit-point sample around `pos` lands on a wall block.
pub open spec fn sample_hits_wall(map: GameMap, pos: Position, hp: Position) -> bool {
    map.wall_at(
        block_coord_spec(pos.x as int + hp.x as int),
        block_coord_spec(pos.y as int + hp.y as int),
    )
}

/// Whether any hit-point sample of `circle` around `position` lands on a
/// wall block.
pub open spec fn wall_collision_spec(position: Position, circle: Circle, map: GameMap) -> bool {
    exists|k: int|
        0 <= k < circle.hit_points@.len()
            && sample_hits_wall(map, position, #[trigger] circle.hit_points@[k])
}

/// Discrete wall-collision test: sample every hit-point offset around the
/// candidate center and report whether any lands on a wall block.
pub fn has_wall_collision(position: &Position, circle: &Circle, map: &GameMap) -> (r: bool)
    requires
        -2 * ARENA_LIMIT <= position.x <= 2 * ARENA_LIMIT,
        -2 * ARENA_LIMIT <= position.y <= 2 * ARENA_LIMIT,
        wf_circle(*circle),
    ensures
        r == wall_collision_spec(*position, *circle, *map),
{
    let n = circle.hit_points.len();
    let mut k: usize = 0;
    while k < n
        invariant
            n == circle.hit_points@.len(),
            k <= n,
            -2 * ARENA_LIMIT <= position.x <= 2 * ARENA_LIMIT,
            -2 * ARENA_LIMIT <= position.y <= 2 * ARENA_LIMIT,
            wf_circle(*circle),
            forall|j: int| 0 <= j < k ==>
                !sample_hits_wall(*map, *position, #[trigger] circle.hit_points@[j]),
        decreases n - k,
    {
        let hp = &circle.hit_points[k];
        let bx = block_coord(position.x + hp.x);
        let by = block_coord(position.y + hp.y);
        if map.is_wall(&Block(bx, by)) {
            return true;
        }
        k += 1;
    }
    false
}

/// Whether a player circle and a bullet circle overlap: the squared
/// distance of the centers is below the squared sum of the radii.
pub open spec fn bullet_player_collision_spec(
    player_position: Position,
    player_circle: Circle,
    bullet_position: Position,
    bullet_circle: Circle,
) -> bool {
    let dx = player_position.x as int - bullet_position.x as int;
    let dy = player_position.y as int - bullet_position.y as int;
    let rr = player_circle.spec_radius() + bullet_circle.spec_radius();
    dx * dx + dy * dy < rr * rr
}

/// The square of a bounded value is bounded by the square of the bound.
proof fn lemma_square_bound(a: int, m: int)
    requires
        -m <= a <= m,
        0 <= m,
    ensures
        0 <= a * a <= m * m,
{
    assert(0 <= a * a <= m * m) by (nonlinear_arith)
        requires -m <= a <= m && 0 <= m;
}

/// Euclidean overlap test between a player and a bullet.
pub fn has_bullet_player_collision(
    player_position: &Position,
    player_circle: &Circle,
    bullet_position: &Position,
    bullet_circle: &Circle,
) -> (r: bool)
    requires
        wf_position(*player_position),
        wf_position(*bullet_position),
        wf_circle(*player_circle),
        wf_circle(*bullet_circle),
    ensures
        r == bullet_player_collision_spec(
            *player_position,
            *player_circle,
            *bullet_position,
            *bullet_circle,
        ),
{
    let dx: i128 = player_position.x as i128 - bullet_position.x as i128;
    let dy: i128 = player_position.y as i128 - bullet_position.y as i128;
    let rr: i128 = (player_circle.get_radius() + bullet_circle.get_radius()) as i128;
    proof {
        lemma_square_bound(dx as int, 2 * ARENA_LIMIT as int);
        lemma_square_bound(dy as int, 2 * ARENA_LIMIT as int);
        lemma_square_bound(rr as int, 2 * UNITS_PER_BLOCK as int);
    }
    let d2: i128 = dx * dx + dy * dy;
    d2 < rr * rr
}

/// The index of the first entity whose player component matches
/// `socket_id`, scanning from `i` upward; `-1` when there is none.
pub open spec fn first_socket_match_from(
    players: Seq<Option<Player>>,
    socket_id: u32,
    i: int,
) -> int
    decreases players.len() - i
    when 0 <= i <= players.len()
{
    if i >= players.len() {
        -1
    } else if players[i] is Some && players[i].unwrap().socket_id == socket_id {
        i
    } else {
        first_socket_match_from(players, socket_id, i + 1)
    }
}

/// The index of the first entity whose player component carries the stable
/// id `id`, scanning from `i` upward; `-1` when there is none.
pub open spec fn first_id_match_from(players: Seq<Option<Player>>, id: Seq<char>, i: int) -> int
    decreases players.len() - i
    when 0 <= i <= players.len()
{
    if i >= players.len() {
        -1
    } else if players[i] is Some && players[i].unwrap().id@ == id {
        i
    } else {
        first_id_match_from(players, id, i + 1)
    }
}

/// When the scan reports no match, no entity at or past `i` matches.
proof fn lemma_id_match_none(players: Seq<Option<Player>>, id: Seq<char>, i: int)
    requires
        0 <= i <= players.len(),
        first_id_match_from(players, id, i) == -1,
    ensures
        forall|j: int| i <= j < players.len() ==>
            !((#[trigger] players[j]) is Some && players[j].unwrap().id@ == id),
    decreases players.len() - i,
{
    if i < players.len() {
        lemma_id_match_none(players, id, i + 1);
    }
}

/// A player freshly created for `socket_id` under the stable id `id`.
pub open spec fn fresh_player(p: Player, socket_id: u32, id: Seq<char>) -> bool {
    &&& p.socket_id == socket_id
    &&& p.id@ == id
    &&& p.name@ == Seq::<char>::empty()
    &&& p.status == ReadyStatus::NotReady
    &&& p.aim == AimStatus::NoAim
    &&& p.shoot == ShootStatus::CanShoot
    &&& p.next_input is NoInput
    &&& p.is_alive
}

/// `w` with the player component of entity `e` replaced by `p`.
pub open spec fn update_player_at(w: WorldModel, e: int, p: Player) -> WorldModel {
    WorldModel { players: w.players.update(e, Some(p)), ..w }
}

/// `w` with one fresh entity holding only the player component `p`.
pub open spec fn append_player(w: WorldModel, p: Player) -> WorldModel {
    WorldModel {
        alive: w.alive.push(true),
        positions: w.positions.push(None),
        movements: w.movements.push(None),
        circles: w.circles.push(None),
        players: w.players.push(Some(p)),
        bullets: w.bullets.push(None),
        inputs: w.inputs.push(None),
    }
}

/// How one decoded input lands in the world: the session's player takes it
/// as pending intent; otherwise a stable-id message rebinds or creates a
/// player; anything else from an unknown session is dropped.
pub open spec fn input_applied(w0: WorldModel, w1: WorldModel, inp: crate::remotes::PlayerInput) -> bool {
    let s = first_socket_match_from(w0.players, inp.socket_id, 0);
    if s >= 0 {
        w1 == update_player_at(
            w0,
            s,
            Player { next_input: inp.remote_input, ..w0.players[s].unwrap() },
        )
    } else {
        match inp.remote_input {
            RemoteInput::ConfigurationInput(ConfigurationInput::PlayerId(id)) => {
                let pi = first_id_match_from(w0.players, id@, 0);
                if pi >= 0 {
                    w1 == update_player_at(
                        w0,
                        pi,
                        Player { socket_id: inp.socket_id, ..w0.players[pi].unwrap() },
                    )
                } else {
                    exists|p: Player|
                        fresh_player(p, inp.socket_id, id@) && w1 == append_player(w0, p)
                }
            },
            _ => w1 == w0,
        }
    }
}

/// One step of input resolution at entity `e`: a pending input is applied
/// and its event entity deleted; an entity without input is untouched.
pub open spec fn input_step(w0: WorldModel, w1: WorldModel, e: int) -> bool {
    if w0.inputs[e] is Some {
        exists|wm: WorldModel|
            input_applied(w0, wm, w0.inputs[e].unwrap()) && w1 == wm.delete_at(e)
    } else {
        w1 == w0
    }
}

/// `trace` witnesses that `w1` is reached from `w0` by resolving the
/// pending inputs of entities `0` to `n - 1`, one step per entity, in
/// entity order.
pub open spec fn inputs_resolved_trace(
    w0: WorldModel,
    w1: WorldModel,
    n: int,
    trace: Seq<WorldModel>,
) -> bool {
    &&& trace.len() == n + 1
    &&& trace[0] == w0
    &&& trace[n] == w1
    &&& forall|i: int| 0 <= i < n ==> input_step(#[trigger] trace[i], trace[i + 1], i)
}

/// `w1` is reachable from `w0` by resolving the pending inputs of entities
/// `0` to `n - 1` in entity order.
pub open spec fn inputs_resolved(w0: WorldModel, w1: WorldModel, n: int) -> bool {
    exists|trace: Seq<WorldModel>| inputs_resolved_trace(w0, w1, n, trace)
}

/// The input-resolution system: runs first each tick, consuming every
/// pending input event in entity order.
pub struct RetrievePlayerForInputs;

impl RetrievePlayerForInputs {
    /// The entity of the player bound to the live session `socket_id`, if
    /// any.
    pub fn retrieve_player_from_socket(&self, world: &World, socket_id: u32) -> (r: Option<usize>)
        requires
            world@.columns_consistent(),
        ensures
            match r {
                Some(i) => first_socket_match_from(world@.players, socket_id, 0) == i
                    && i < world@.len() && world@.players[i as int] is Some
                    && world@.players[i as int].unwrap().socket_id == socket_id,
                None => first_socket_match_from(world@.players, socket_id, 0) == -1,
            },
    {
        let n = world.players.len();
        let mut e: usize = 0;
        while e < n
            invariant
                world@.columns_consistent(),
                n == world@.players.len(),
                e <= n,
                first_socket_match_from(world@.players, socket_id, 0)
                    == first_socket_match_from(world@.players, socket_id, e as int),
            decreases n - e,
        {
            let matched = match &world.players[e] {
                Some(p) => p.socket_id == socket_id,
                None => false,
            };
            if matched {
                return Some(e);
            }
            e += 1;
        }
        None
    }

    /// The entity of the player with the stable id `player_id`, if any.
    pub fn retrieve_player_from_id(&self, world: &World, player_id: &String) -> (r: Option<usize>)
        requires
            world@.columns_consistent(),
        ensures
            match r {
                Some(i) => first_id_match_from(world@.players, player_id@, 0) == i
                    && i < world@.len() && world@.players[i as int] is Some
                    && world@.players[i as int].unwrap().id@ == player_id@,
                None => first_id_match_from(world@.players, player_id@, 0) == -1,
            },
    {
        let n = world.players.len();
        let mut e: usize = 0;
        while e < n
            invariant
                world@.columns_consistent(),
                n == world@.players.len(),
                e <= n,
                first_id_match_from(world@.players, player_id@, 0)
                    == first_id_match_from(world@.players, player_id@, e as int),
            decreases n - e,
        {
            let matched = match &world.players[e] {
                Some(p) => p.id == *player_id,
                None => false,
            };
            if matched {
                return Some(e);
            }
            e += 1;
        }
        None
    }

    /// Consume every pending input event: route it to the player of its
    /// session, or rebind/create a player on a stable-id message, and
    /// delete the event entity whatever the outcome.
    pub fn run(&self, world: &mut World)
        requires
            old(world)@.wf(),
            old(world)@.len() <= 0x7fffffff,
        ensures
            final(world)@.wf(),
            inputs_resolved(old(world)@, final(world)@, old(world)@.len() as int),
            old(world)@.len() <= final(world)@.len() <= 2 * old(world)@.len(),
    {
        let ghost w0 = world@;
        let ghost mut trace: Seq<WorldModel> = seq![world@];
        let n = world.len();
        let mut e: usize = 0;
        while e < n
            invariant
                world@.wf(),
                n == w0.len(),
                w0.len() <= 0x7fffffff,
                e <= n,
                n <= world@.len(),
                world@.len() <= w0.len() + e,
                inputs_resolved_trace(w0, world@, e as int, trace),
            decreases n - e,
        {
            let ghost w_pre = world@;
            proof {
                assert(trace[e as int] == w_pre);
            }
            let (has_input, socket_id, rin) = match &world.inputs[e] {
                Some(inp) => (true, inp.socket_id, inp.remote_input.duplicate()),
                None => (false, 0u32, RemoteInput::NoInput),
            };
            if has_input {
                let ghost inp0 = w_pre.inputs[e as int].unwrap();
                let found = self.retrieve_player_from_socket(world, socket_id);
                match found {
                    Some(s) => {
                        let slot = world.players[s].take();
                        match slot {
                            Some(mut p) => {
                                p.next_input = rin;
                                world.players[s] = Some(p);
                            },
                            None => {},
                        }
                        proof {
                            assert(world@ =~= update_player_at(
                                w_pre,
                                s as int,
                                Player { next_input: inp0.remote_input, ..w_pre.players[s as int].unwrap() },
                            ));
                            assert(input_applied(w_pre, world@, inp0));
                        }
                    },
                    None => {
                        match rin {
                            RemoteInput::ConfigurationInput(ConfigurationInput::PlayerId(id)) => {
                                let found_id = self.retrieve_player_from_id(world, &id);
                                match found_id {
                                    Some(pi) => {
                                        let slot = world.players[pi].take();
                                        match slot {
                                            Some(mut p) => {
                                                p.socket_id = socket_id;
                                                world.players[pi] = Some(p);
                                            },
                                            None => {},
                                        }
                                        proof {
                                            assert(world@ =~= update_player_at(
                                                w_pre,
                                                pi as int,
                                                Player {
                                                    socket_id: inp0.socket_id,
                                                    ..w_pre.players[pi as int].unwrap()
                                                },
                                            ));
                                            assert(input_applied(w_pre, world@, inp0));
                                        }
                                    },
                                    None => {
                                        proof {
                                            lemma_id_match_none(world@.players, id@, 0);
                                        }
                                        let pe = world.create_entity();
                                        let newp = Player::new(socket_id, id);
                                        let ghost gnewp = newp;
                                        let _ = world.insert_player(pe, newp);
                                        proof {
                                            assert(world@ =~= append_player(w_pre, gnewp));
                                            assert(fresh_player(gnewp, inp0.socket_id, gnewp.id@));
                                            assert(input_applied(w_pre, world@, inp0));
                                        }
                                    },
                                }
                            },
                            _ => {
                                proof {
                                    assert(world@ == w_pre);
                                    assert(input_applied(w_pre, world@, inp0));
                                }
                            },
                        }
                    },
                }
                let ghost w_applied = world@;
                world.delete_entity(e);
                proof {
                    assert(world@ == w_applied.delete_at(e as int));
                    assert(input_step(w_pre, world@, e as int));
                }
            }
            proof {
                trace = trace.push(world@);
                assert(input_step(trace[e as int], trace[e as int + 1], e as int));
                assert(inputs_resolved_trace(w0, world@, e as int + 1, trace));
            }
            e += 1;
        }
    }
}

} // verus!

// === Phase dispatch and configuration handling ===========================

use crate::components::{clamp_dir, DEFAULT_PLAYER_RADIUS, DEFAULT_BULLET_RADIUS, is_preset_ring, BULLET_SPEED, PLAYER_SPEED, NUMBER_OF_FRAMES_BETWEEN_SHOTS, Dir};
use crate::remotes::GameInput;
use crate::components::Bullet;
use crate::state::{Phase, State};

verus! {

/// Whether any entity currently holds a player component.
pub open spec fn some_player(ps: Seq<Option<Player>>) -> bool {
    exists|e: int| 0 <= e < ps.len() && (#[trigger] ps[e]) is Some
}

/// Whether every player present has readied up.
pub open spec fn all_ready(ps: Seq<Option<Player>>) -> bool {
    forall|e: int| 0 <= e < ps.len() && (#[trigger] ps[e]) is Some
        ==> ps[e].unwrap().status == ReadyStatus::Ready
}

/// The number of player components among entities below `n`.
pub open spec fn players_upto(ps: Seq<Option<Player>>, n: int) -> int
    decreases n,
{
    if n <= 0 {
        0
    } else {
        players_upto(ps, n - 1) + if ps[n - 1] is Some { 1int } else { 0int }
    }
}

/// Counting one more entity adds one exactly when it holds a player.
proof fn lemma_players_upto_step(ps: Seq<Option<Player>>, e: int)
    requires
        e >= 0,
    ensures
        players_upto(ps, e + 1) == players_upto(ps, e) + if ps[e] is Some { 1int } else { 0int },
{
}

/// The count over a prefix never exceeds the count over the whole range.
proof fn lemma_players_upto_mono(ps: Seq<Option<Player>>, m: int, n: int)
    requires
        0 <= m <= n,
    ensures
        players_upto(ps, m) <= players_upto(ps, n),
    decreases n - m,
{
    if m < n {
        lemma_players_upto_mono(ps, m, n - 1);
        lemma_players_upto_step(ps, n - 1);
    }
}

/// A player entity strictly below `n` contributes to the count up to `n`.
proof fn lemma_players_upto_member(ps: Seq<Option<Player>>, e: int, n: int)
    requires
        0 <= e < n,
        ps[e] is Some,
    ensures
        players_upto(ps, n) >= players_upto(ps, e) + 1,
{
    lemma_players_upto_step(ps, e);
    lemma_players_upto_mono(ps, e + 1, n);
}

/// How a configuration-phase intent lands on one player: ready-up flags and
/// non-empty renames apply; game intents are rejected; the pending intent
/// itself is kept.
pub open spec fn config_intent_applied(p0: Player, p1: Player) -> bool {
    match p0.next_input {
        RemoteInput::GameInput(_) => p1 == p0,
        RemoteInput::ConfigurationInput(ConfigurationInput::NotReady) =>
            p1 == (Player { status: ReadyStatus::NotReady, ..p0 }),
        RemoteInput::ConfigurationInput(ConfigurationInput::Ready) =>
            p1 == (Player { status: ReadyStatus::Ready, ..p0 }),
        RemoteInput::ConfigurationInput(ConfigurationInput::SetName(name)) =>
            if name@.len() > 0 {
                p1 == (Player { name: name, ..p0 })
            } else {
                p1 == p0
            },
        RemoteInput::ConfigurationInput(ConfigurationInput::PlayerId(_)) => p1 == p0,
        RemoteInput::NoInput => p1 == p0,
    }
}

/// Pointwise application of configuration intents to the player column.
pub open spec fn players_configured(ps0: Seq<Option<Player>>, ps1: Seq<Option<Player>>) -> bool {
    &&& ps1.len() == ps0.len()
    &&& forall|e: int| 0 <= e < ps0.len() ==>
        ((#[trigger] ps0[e]) is Some <==> (#[trigger] ps1[e]) is Some)
    &&& forall|e: int| 0 <= e < ps0.len() && (#[trigger] ps0[e]) is Some ==>
        config_intent_applied(ps0[e].unwrap(), ps1[e].unwrap())
}

/// Entity `e` keeps its physical components between two models.
pub open spec fn phys_unchanged_at(w0: WorldModel, w1: WorldModel, e: int) -> bool {
    &&& w1.positions[e] == w0.positions[e]
    &&& w1.movements[e] == w0.movements[e]
    &&& w1.circles[e] == w0.circles[e]
}

/// Entity `e` was given fresh physical components at the center of a spawn
/// block from `pool0`: a zero movement and the player hit-geometry preset.
pub open spec fn player_spawn_attached(w1: WorldModel, e: int, pool0: Seq<Block>) -> bool {
    exists|b: Block| {
        &&& #[trigger] pool0.contains(b)
        &&& w1.positions[e] == Some(block_center_spec(b))
        &&& w1.movements[e] matches Some(m) && m.velocity_x() == 0 && m.velocity_y() == 0
        &&& w1.circles[e] matches Some(c) && c.spec_radius() == DEFAULT_PLAYER_RADIUS
            && is_preset_ring(c.hit_points@, DEFAULT_PLAYER_RADIUS as int)
    }
}

/// The configuration-phase step: intents apply to every player; then, if at
/// least one player exists and all are ready, the game starts and every
/// player is placed on a claimed spawn block (a player left without a spawn
/// keeps no physical components until an upstream policy decides).
pub open spec fn configuration_handled(
    w0: WorldModel,
    map0: GameMap,
    phase0: Phase,
    w1: WorldModel,
    map1: GameMap,
    phase1: Phase,
) -> bool {
    let started = some_player(w1.players) && all_ready(w1.players);
    &&& players_configured(w0.players, w1.players)
    &&& w1.alive == w0.alive
    &&& w1.bullets == w0.bullets
    &&& w1.inputs == w0.inputs
    &&& w1.positions.len() == w0.positions.len()
    &&& w1.movements.len() == w0.movements.len()
    &&& w1.circles.len() == w0.circles.len()
    &&& phase1 == if started { Phase::InGame } else { phase0 }
    &&& if !started {
        &&& w1.positions == w0.positions
        &&& w1.movements == w0.movements
        &&& w1.circles == w0.circles
        &&& map1 == map0
    } else {
        &&& map1.spawns_view() == map0.spawns_view()
        &&& map1.matrix_view() == map0.matrix_view()
        &&& map1.spec_block_size() == map0.spec_block_size()
        &&& map1.wf()
        &&& forall|i: int| 0 <= i < map1.available_view().len() ==>
            map0.available_view().contains(#[trigger] map1.available_view()[i])
        &&& map1.available_view().len()
            >= map0.available_view().len() - players_upto(w1.players, w1.players.len() as int)
        &&& forall|e: int| 0 <= e < w0.players.len() ==> {
            ||| (#[trigger] w1.players[e]) is Some
                && (player_spawn_attached(w1, e, map0.available_view())
                    || phys_unchanged_at(w0, w1, e))
            ||| w1.players[e] is None && phys_unchanged_at(w0, w1, e)
        }
        &&& map0.available_view().len() >= players_upto(w1.players, w1.players.len() as int)
            ==> forall|e: int| 0 <= e < w0.players.len() && (#[trigger] w1.players[e]) is Some
                ==> player_spawn_attached(w1, e, map0.available_view())
    }
}

/// A spawn attachment only depends on the entity's own physical components.
proof fn lemma_spawn_attached_stable(w0: WorldModel, w1: WorldModel, e: int, pool: Seq<Block>)
    requires
        player_spawn_attached(w0, e, pool),
        w1.positions[e] == w0.positions[e],
        w1.movements[e] == w0.movements[e],
        w1.circles[e] == w0.circles[e],
    ensures
        player_spawn_attached(w1, e, pool),
{
    let b = choose|b: Block| {
        &&& #[trigger] pool.contains(b)
        &&& w0.positions[e] == Some(block_center_spec(b))
        &&& w0.movements[e] matches Some(m) && m.velocity_x() == 0 && m.velocity_y() == 0
        &&& w0.circles[e] matches Some(c) && c.spec_radius() == DEFAULT_PLAYER_RADIUS
            && is_preset_ring(c.hit_points@, DEFAULT_PLAYER_RADIUS as int)
    };
    assert(pool.contains(b) && w1.positions[e] == Some(block_center_spec(b)));
}

/// The phase-dependent intent handler, run after input resolution each
/// tick.
pub struct HandleInputs;

impl HandleInputs {
    /// Whether the player set is non-empty and every player has readied up.
    pub fn all_players_are_ready(&self, world: &World) -> (r: bool)
        requires
            world@.columns_consistent(),
        ensures
            r == (some_player(world@.players) && all_ready(world@.players)),
    {
        let n = world.players.len();
        let mut any = false;
        let mut all = true;
        let mut e: usize = 0;
        while e < n
            invariant
                world@.columns_consistent(),
                n == world@.players.len(),
                e <= n,
                any == exists|j: int| 0 <= j < e && (#[trigger] world@.players[j]) is Some,
                all == forall|j: int| 0 <= j < e && (#[trigger] world@.players[j]) is Some
                    ==> world@.players[j].unwrap().status == ReadyStatus::Ready,
            decreases n - e,
        {
            match &world.players[e] {
                Some(p) => {
                    any = true;
                    if !p.is_ready() {
                        all = false;
                    }
                },
                None => {},
            }
            e += 1;
        }
        any && all
    }

    /// Configuration handling: apply naming and ready-up intents, reject
    /// game intents, and start the game once every present player is ready,
    /// claiming one spawn block per player.
    pub fn handle_configuration_inputs(&self, world: &mut World, state: &mut State)
        requires
            old(world)@.wf(),
            old(state).map.wf(),
        ensures
            final(world)@.wf(),
            final(state).map.wf(),
            configuration_handled(
                old(world)@,
                old(state).map,
                old(state).phase,
                final(world)@,
                final(state).map,
                final(state).phase,
            ),
            final(state).room_url == old(state).room_url,
            final(state).resolution == old(state).resolution,
            final(state).number_of_ready_players == old(state).number_of_ready_players,
    {
        let ghost w0 = world@;
        let n = world.len();
        let mut e: usize = 0;
        while e < n
            invariant
                world@.wf(),
                n == w0.len(),
                e <= n,
                world@.alive == w0.alive,
                world@.positions == w0.positions,
                world@.movements == w0.movements,
                world@.circles == w0.circles,
                world@.bullets == w0.bullets,
                world@.inputs == w0.inputs,
                world@.players.len() == w0.players.len(),
                forall|j: int| 0 <= j < w0.players.len() ==>
                    ((#[trigger] w0.players[j]) is Some <==> (#[trigger] world@.players[j]) is Some),
                forall|j: int| 0 <= j < e && (#[trigger] w0.players[j]) is Some ==>
                    config_intent_applied(w0.players[j].unwrap(), world@.players[j].unwrap()),
                forall|j: int| e <= j < n ==> world@.players[j] == w0.players[j],
            decreases n - e,
        {
            let ghost w_pre = world@;
            let slot = world.players[e].take();
            match slot {
                Some(mut p) => {
                    let ghost p0 = p;
                    let intent = p.next_input.duplicate();
                    match intent {
                        RemoteInput::GameInput(_) => {},
                        RemoteInput::ConfigurationInput(ConfigurationInput::NotReady) => {
                            p.status = ReadyStatus::NotReady;
                        },
                        RemoteInput::ConfigurationInput(ConfigurationInput::Ready) => {
                            p.status = ReadyStatus::Ready;
                        },
                        RemoteInput::ConfigurationInput(ConfigurationInput::SetName(name)) => {
                            if !name.as_str().is_empty() {
                                p.name = name;
                            }
                        },
                        RemoteInput::ConfigurationInput(ConfigurationInput::PlayerId(_)) => {},
                        RemoteInput::NoInput => {},
                    }
                    world.players[e] = Some(p);
                    proof {
                        assert(config_intent_applied(p0, world@.players[e as int].unwrap()));
                        assert(world@.players =~= w_pre.players.update(e as int, world@.players[e as int]));
                    }
                },
                None => {
                    world.players[e] = None;
                    proof {
                        assert(world@.players =~= w_pre.players);
                    }
                },
            }
            e += 1;
        }

        if self.all_players_are_ready(world) {
            state.phase = Phase::InGame;
            let ghost wmid = world@;
            let ghost pool0 = state.map.available_view();
            let ghost map0 = state.map;
            let ghost total = players_upto(wmid.players, wmid.players.len() as int);
            let mut e2: usize = 0;
            while e2 < n
                invariant
                    world@.wf(),
                    state.map.wf(),
                    n == wmid.len(),
                    e2 <= n,
                    state.phase == Phase::InGame,
                    state.room_url == old(state).room_url,
                    state.resolution == old(state).resolution,
                    state.number_of_ready_players == old(state).number_of_ready_players,
                    world@.alive == wmid.alive,
                    world@.players == wmid.players,
                    world@.bullets == wmid.bullets,
                    world@.inputs == wmid.inputs,
                    world@.positions.len() == wmid.positions.len(),
                    world@.movements.len() == wmid.movements.len(),
                    world@.circles.len() == wmid.circles.len(),
                    total == players_upto(wmid.players, wmid.players.len() as int),
                    pool0 == map0.available_view(),
                    state.map.spawns_view() == map0.spawns_view(),
                    state.map.matrix_view() == map0.matrix_view(),
                    state.map.spec_block_size() == map0.spec_block_size(),
                    forall|i: int| 0 <= i < state.map.available_view().len() ==>
                        pool0.contains(#[trigger] state.map.available_view()[i]),
                    state.map.available_view().len()
                        >= pool0.len() - players_upto(wmid.players, e2 as int),
                    forall|j: int| 0 <= j < e2 && (#[trigger] wmid.players[j]) is Some ==>
                        (player_spawn_attached(world@, j, pool0)
                            || phys_unchanged_at(wmid, world@, j)),
                    forall|j: int| 0 <= j < e2 && (#[trigger] wmid.players[j]) is None ==>
                        phys_unchanged_at(wmid, world@, j),
                    forall|j: int| e2 <= j < n ==> phys_unchanged_at(wmid, world@, j),
                    pool0.len() >= total ==>
                        forall|j: int| 0 <= j < e2 && (#[trigger] wmid.players[j]) is Some
                            ==> player_spawn_attached(world@, j, pool0),
                decreases n - e2,
            {
                let ghost w_pre = world@;
                let ghost map_pre = state.map;
                let is_player = world.players[e2].is_some();
                if is_player {
                    proof {
                        lemma_players_upto_member(wmid.players, e2 as int, wmid.players.len() as int);
                        lemma_players_upto_mono(wmid.players, 0, e2 as int);
                        if pool0.len() >= total {
                            assert(players_upto(wmid.players, e2 as int) + 1 <= total);
                            assert(state.map.available_view().len() > 0);
                        }
                    }
                    let spawn = state.map.get_spawn_block();
                    match spawn {
                        Err(_) => {},
                        Ok(spawn) => {
                            let spawn_position = get_position_block_center(spawn);
                            world.positions[e2] = Some(spawn_position);
                            world.movements[e2] = Some(Movement::new());
                            world.circles[e2] = Some(Circle::new_player_circle());
                            proof {
                                assert(map_pre.available_view().contains(spawn));
                                let gi = choose|gi: int|
                                    0 <= gi < map_pre.available_view().len()
                                        && map_pre.available_view()[gi] == spawn;
                                assert(pool0.contains(spawn));
                                assert(player_spawn_attached(world@, e2 as int, pool0));
                                assert forall|i: int|
                                    0 <= i < state.map.available_view().len() implies
                                    pool0.contains(#[trigger] state.map.available_view()[i]) by {
                                    let ri = choose|ri: int|
                                        0 <= ri < map_pre.available_view().len()
                                            && map_pre.available_view()[ri] == spawn
                                            && state.map.available_view()
                                                == map_pre.available_view().remove(ri);
                                    if i < ri {
                                        assert(state.map.available_view()[i]
                                            == map_pre.available_view()[i]);
                                    } else {
                                        assert(state.map.available_view()[i]
                                            == map_pre.available_view()[i + 1]);
                                    }
                                }
                            }
                        },
                    }
                }
                proof {
                    lemma_players_upto_step(wmid.players, e2 as int);
                    assert forall|j: int| e2 as int + 1 <= j < n implies
                        phys_unchanged_at(wmid, world@, j) by {
                        assert(phys_unchanged_at(wmid, w_pre, j));
                    }
                    assert forall|j: int| 0 <= j < e2 as int && (#[trigger] wmid.players[j]) is Some
                        && player_spawn_attached(w_pre, j, pool0) implies
                        player_spawn_attached(world@, j, pool0) by {
                        lemma_spawn_attached_stable(w_pre, world@, j, pool0);
                    }
                }
                e2 += 1;
            }
            proof {
                lemma_players_upto_mono(wmid.players, 0, n as int);
            }
        }
    }
}

} // verus!

// === In-game intent resolution and world update ===========================

verus! {

/// The direction stored in an aim status (the zero vector when not aiming).
pub open spec fn aim_dir_of(a: AimStatus) -> Dir {
    match a {
        AimStatus::Aim(d) => d,
        AimStatus::NoAim => Dir { x: 0, y: 0 },
    }
}

/// `p` with its pending intent consumed.
pub open spec fn intent_consumed(p: Player) -> Player {
    Player { next_input: RemoteInput::NoInput, ..p }
}

/// How one in-game intent lands on a player and its movement. Movement and
/// aim directions are clamped into the unit scale; a shot is accepted only
/// with a full cooldown, and an illegal retrigger clears the aim. The
/// pending intent is consumed exactly once whatever the case.
pub open spec fn game_intent_applied(p0: Player, m0: Movement, p1: Player, m1: Movement) -> bool {
    match p0.next_input {
        RemoteInput::GameInput(GameInput::Move(d)) => {
            let cd = clamp_dir_spec(d);
            &&& p1 == intent_consumed(p0)
            &&& m1.velocity_x() == scale_by_unit_spec(PLAYER_SPEED as int, cd.x as int)
            &&& m1.velocity_y() == scale_by_unit_spec(PLAYER_SPEED as int, cd.y as int)
        },
        RemoteInput::GameInput(GameInput::Stop) => {
            &&& p1 == intent_consumed(p0)
            &&& m1.velocity_x() == 0 && m1.velocity_y() == 0
        },
        RemoteInput::GameInput(GameInput::Aim(d)) => {
            &&& p1 == (Player { aim: AimStatus::Aim(d), next_input: RemoteInput::NoInput, ..p0 })
            &&& m1 == m0
        },
        RemoteInput::GameInput(GameInput::Shoot) => {
            &&& m1 == m0
            &&& if p0.shoot == ShootStatus::CanShoot {
                p1 == (Player {
                    shoot: ShootStatus::Shooting,
                    next_input: RemoteInput::NoInput,
                    ..p0
                })
            } else {
                p1 == (Player { aim: AimStatus::NoAim, next_input: RemoteInput::NoInput, ..p0 })
            }
        },
        _ => p1 == intent_consumed(p0) && m1 == m0,
    }
}

/// The in-game intent-resolution step: every entity holding both a player
/// and a movement interprets and consumes its pending intent; everything
/// else is untouched.
pub open spec fn game_inputs_handled(w0: WorldModel, w1: WorldModel) -> bool {
    &&& w1.alive == w0.alive
    &&& w1.positions == w0.positions
    &&& w1.circles == w0.circles
    &&& w1.bullets == w0.bullets
    &&& w1.inputs == w0.inputs
    &&& w1.players.len() == w0.players.len()
    &&& w1.movements.len() == w0.movements.len()
    &&& forall|e: int| 0 <= e < w0.players.len() ==>
        if (#[trigger] w0.players[e]) is Some && w0.movements[e] is Some {
            &&& w1.players[e] is Some && w1.movements[e] is Some
            &&& game_intent_applied(
                w0.players[e].unwrap(),
                w0.movements[e].unwrap(),
                w1.players[e].unwrap(),
                w1.movements[e].unwrap(),
            )
        } else {
            w1.players[e] == w0.players[e] && w1.movements[e] == w0.movements[e]
        }
}

/// Where an entity ends up after one tick of movement: the candidate one
/// step along its movement, unless a hit-point sample of the candidate
/// lands on a wall or the candidate leaves the arena bound; then it stays.
pub open spec fn moved_position(p: Position, m: Movement, c: Circle, map: GameMap) -> Position {
    let cand = Position {
        x: (p.x as int + m.velocity_x()) as i64,
        y: (p.y as int + m.velocity_y()) as i64,
    };
    if wf_position(cand) && !wall_collision_spec(cand, c, map) {
        cand
    } else {
        p
    }
}

/// The movement phase: every entity with hit geometry, movement and a
/// position moves by `moved_position`; everything else is untouched.
pub open spec fn movement_integrated(w0: WorldModel, w1: WorldModel, map: GameMap) -> bool {
    &&& w1.alive == w0.alive
    &&& w1.movements == w0.movements
    &&& w1.circles == w0.circles
    &&& w1.players == w0.players
    &&& w1.bullets == w0.bullets
    &&& w1.inputs == w0.inputs
    &&& w1.positions.len() == w0.positions.len()
    &&& forall|e: int| 0 <= e < w0.positions.len() ==>
        if (#[trigger] w0.positions[e]) is Some && w0.movements[e] is Some
            && w0.circles[e] is Some {
            w1.positions[e] == Some(moved_position(
                w0.positions[e].unwrap(),
                w0.movements[e].unwrap(),
                w0.circles[e].unwrap(),
                map,
            ))
        } else {
            w1.positions[e] == w0.positions[e]
        }
}

/// Whether the bullet at entity `be` currently overlaps the player at
/// entity `pe` and belongs to someone else.
pub open spec fn bullet_kills(w: WorldModel, pe: int, be: int) -> bool {
    &&& 0 <= be < w.len()
    &&& w.bullets[be] is Some && w.positions[be] is Some && w.circles[be] is Some
    &&& bullet_player_collision_spec(
        w.positions[pe].unwrap(),
        w.circles[pe].unwrap(),
        w.positions[be].unwrap(),
        w.circles[be].unwrap(),
    )
    &&& w.bullets[be].unwrap().owner_id@ != w.players[pe].unwrap().id@
}

/// The bullet-player collision phase: a player with a position and hit
/// geometry stays alive exactly when no foreign bullet overlaps it; all
/// simultaneous hits apply, and nothing else changes.
pub open spec fn bullet_collisions_applied(w0: WorldModel, w1: WorldModel) -> bool {
    &&& w1.alive == w0.alive
    &&& w1.positions == w0.positions
    &&& w1.movements == w0.movements
    &&& w1.circles == w0.circles
    &&& w1.bullets == w0.bullets
    &&& w1.inputs == w0.inputs
    &&& w1.players.len() == w0.players.len()
    &&& forall|pe: int| 0 <= pe < w0.players.len() ==>
        if (#[trigger] w0.players[pe]) is Some && w0.positions[pe] is Some
            && w0.circles[pe] is Some {
            w1.players[pe] == Some(Player {
                is_alive: w0.players[pe].unwrap().is_alive
                    && !exists|be: int| #[trigger] bullet_kills(w0, pe, be),
                ..w0.players[pe].unwrap()
            })
        } else {
            w1.players[pe] == w0.players[pe]
        }
}

/// A player that is `Shooting` and standing somewhere.
pub open spec fn is_shooter(w: WorldModel, e: int) -> bool {
    &&& 0 <= e < w.len()
    &&& w.players[e] is Some && w.positions[e] is Some
    &&& w.players[e].unwrap().shoot == ShootStatus::Shooting
}

/// A shooter that also has an aim direction set, so a bullet will spawn.
pub open spec fn aiming_shooter(w: WorldModel, e: int) -> bool {
    is_shooter(w, e) && w.players[e].unwrap().aim is Aim
}

/// The number of aiming shooters among entities below `n`.
pub open spec fn aiming_shooters_upto(w: WorldModel, n: int) -> int
    decreases n,
{
    if n <= 0 {
        0
    } else {
        aiming_shooters_upto(w, n - 1) + if aiming_shooter(w, n - 1) { 1int } else { 0int }
    }
}

/// Counting one more entity adds one exactly for an aiming shooter.
proof fn lemma_shooters_upto_step(w: WorldModel, e: int)
    requires
        e >= 0,
    ensures
        aiming_shooters_upto(w, e + 1)
            == aiming_shooters_upto(w, e) + if aiming_shooter(w, e) { 1int } else { 0int },
{
}

/// `p` right after firing: aim cleared and the full cooldown started.
pub open spec fn after_shot(p: Player) -> Player {
    Player {
        aim: AimStatus::NoAim,
        shoot: ShootStatus::FrameLeftUntilNextShot(NUMBER_OF_FRAMES_BETWEEN_SHOTS),
        ..p
    }
}

/// The fresh entity `ne` carries the bullet fired by the shooter `se`: the
/// owner's stable id, the shooter's position, bullet speed along the
/// clamped aim direction, and the bullet hit-geometry preset.
pub open spec fn bullet_spawned_for(w0: WorldModel, w1: WorldModel, se: int, ne: int) -> bool {
    &&& aiming_shooter(w0, se)
    &&& w0.len() <= ne < w1.len()
    &&& w1.alive[ne]
    &&& w1.players[ne] is None && w1.inputs[ne] is None
    &&& w1.bullets[ne] matches Some(b)
        && b.owner_id@ == w0.players[se].unwrap().id@
    &&& w1.positions[ne] == w0.positions[se]
    &&& w1.movements[ne] matches Some(m) && {
        let d = clamp_dir_spec(aim_dir_of(w0.players[se].unwrap().aim));
        m.velocity_x() == scale_by_unit_spec(BULLET_SPEED as int, d.x as int)
            && m.velocity_y() == scale_by_unit_spec(BULLET_SPEED as int, d.y as int)
    }
    &&& w1.circles[ne] matches Some(c) && c.spec_radius() == DEFAULT_BULLET_RADIUS
        && is_preset_ring(c.hit_points@, DEFAULT_BULLET_RADIUS as int)
}

/// The bullet-spawn phase: every aiming shooter spawns one fresh bullet
/// entity; every shooter (aiming or not) has its aim cleared and cooldown
/// started; everything else below the old length is untouched.
pub open spec fn bullets_spawned(w0: WorldModel, w1: WorldModel) -> bool {
    &&& w1.len() == w0.len() + aiming_shooters_upto(w0, w0.len() as int)
    &&& w1.positions.len() == w1.len() && w1.movements.len() == w1.len()
        && w1.circles.len() == w1.len() && w1.players.len() == w1.len()
        && w1.bullets.len() == w1.len() && w1.inputs.len() == w1.len()
    &&& forall|e: int| 0 <= e < w0.len() ==> {
        &&& (#[trigger] w1.alive[e]) == w0.alive[e]
        &&& w1.positions[e] == w0.positions[e]
        &&& w1.movements[e] == w0.movements[e]
        &&& w1.circles[e] == w0.circles[e]
        &&& w1.bullets[e] == w0.bullets[e]
        &&& w1.inputs[e] == w0.inputs[e]
        &&& w1.players[e] == if is_shooter(w0, e) {
            Some(after_shot(w0.players[e].unwrap()))
        } else {
            w0.players[e]
        }
    }
    &&& forall|ne: int| w0.len() <= ne < w1.len() ==>
        (#[trigger] w1.alive[ne]) && exists|se: int| #[trigger] bullet_spawned_for(w0, w1, se, ne)
    &&& forall|se: int| #[trigger] aiming_shooter(w0, se) ==>
        bullet_spawned_for(w0, w1, se, w0.len() + aiming_shooters_upto(w0, se))
}

/// The cooldown phase on one player: a positive cooldown counts down, a
/// spent one turns into a permission to shoot.
pub open spec fn cooled(p: Player) -> Player {
    match p.shoot {
        ShootStatus::FrameLeftUntilNextShot(frames) => if frames > 0 {
            Player { shoot: ShootStatus::FrameLeftUntilNextShot((frames - 1) as u32), ..p }
        } else {
            Player { shoot: ShootStatus::CanShoot, ..p }
        },
        _ => p,
    }
}

/// The cooldown phase: every player decays its cooldown; nothing else
/// changes.
pub open spec fn cooldowns_applied(w0: WorldModel, w1: WorldModel) -> bool {
    &&& w1.alive == w0.alive
    &&& w1.positions == w0.positions
    &&& w1.movements == w0.movements
    &&& w1.circles == w0.circles
    &&& w1.bullets == w0.bullets
    &&& w1.inputs == w0.inputs
    &&& w1.players.len() == w0.players.len()
    &&& forall|e: int| 0 <= e < w0.players.len() ==>
        (#[trigger] w1.players[e]) == match w0.players[e] {
            Some(p) => Some(cooled(p)),
            None => None::<Player>,
        }
}

/// The four world-update phases in their fixed order, with the two
/// intermediate worlds as explicit witnesses.
pub open spec fn game_update_trace(
    w0: WorldModel,
    w1: WorldModel,
    map: GameMap,
    mids: (WorldModel, WorldModel, WorldModel),
) -> bool {
    &&& movement_integrated(w0, mids.0, map)
    &&& bullet_collisions_applied(mids.0, mids.1)
    &&& bullets_spawned(mids.1, mids.2)
    &&& cooldowns_applied(mids.2, w1)
}

/// The world-update step: movement with wall collision, then bullet-player
/// collision, then bullet spawning, then cooldown decay.
pub open spec fn game_updated(w0: WorldModel, w1: WorldModel, map: GameMap) -> bool {
    exists|mids: (WorldModel, WorldModel, WorldModel)|
        #[trigger] game_update_trace(w0, w1, map, mids)
}

impl HandleInputs {
    /// Movement phase: integrate every moving entity one tick forward,
    /// rejecting candidates that sample a wall or leave the arena bound.
    pub fn run_movement(&self, world: &mut World, map: &GameMap)
        requires
            old(world)@.wf(),
        ensures
            final(world)@.wf(),
            movement_integrated(old(world)@, final(world)@, *map),
    {
        let ghost w0 = world@;
        let n = world.len();
        let mut e: usize = 0;
        while e < n
            invariant
                world@.wf(),
                n == w0.len(),
                e <= n,
                world@.alive == w0.alive,
                world@.movements == w0.movements,
                world@.circles == w0.circles,
                world@.players == w0.players,
                world@.bullets == w0.bullets,
                world@.inputs == w0.inputs,
                world@.positions.len() == w0.positions.len(),
                forall|j: int| 0 <= j < e ==>
                    if (#[trigger] w0.positions[j]) is Some && w0.movements[j] is Some
                        && w0.circles[j] is Some {
                        world@.positions[j] == Some(moved_position(
                            w0.positions[j].unwrap(),
                            w0.movements[j].unwrap(),
                            w0.circles[j].unwrap(),
                            *map,
                        ))
                    } else {
                        world@.positions[j] == w0.positions[j]
                    },
                forall|j: int| e <= j < n ==> world@.positions[j] == w0.positions[j],
            decreases n - e,
        {
            let eligible = world.positions[e].is_some() && world.movements[e].is_some()
                && world.circles[e].is_some();
            if eligible {
                let pos = world.positions[e].unwrap();
                let mov = world.movements[e].unwrap();
                let next_position = pos.next(&mov);
                let collides = match &world.circles[e] {
                    Some(c) => has_wall_collision(&next_position, c, map),
                    None => false,
                };
                let in_bounds = next_position.x >= -ARENA_LIMIT && next_position.x <= ARENA_LIMIT
                    && next_position.y >= -ARENA_LIMIT && next_position.y <= ARENA_LIMIT;
                if in_bounds && !collides {
                    world.positions[e] = Some(next_position);
                }
                proof {
                    assert(world@.positions[e as int] == Some(moved_position(
                        w0.positions[e as int].unwrap(),
                        w0.movements[e as int].unwrap(),
                        w0.circles[e as int].unwrap(),
                        *map,
                    )));
                }
            }
            e += 1;
        }
    }

    /// Collision phase: mark every player hit by a foreign bullet as dead.
    pub fn run_bullet_collisions(&self, world: &mut World)
        requires
            old(world)@.wf(),
        ensures
            final(world)@.wf(),
            bullet_collisions_applied(old(world)@, final(world)@),
    {
        let ghost w0 = world@;
        let n = world.len();
        let mut pe: usize = 0;
        while pe < n
            invariant
                world@.wf(),
                n == w0.len(),
                pe <= n,
                world@.alive == w0.alive,
                world@.positions == w0.positions,
                world@.movements == w0.movements,
                world@.circles == w0.circles,
                world@.bullets == w0.bullets,
                world@.inputs == w0.inputs,
                world@.players.len() == w0.players.len(),
                forall|j: int| 0 <= j < pe ==>
                    if (#[trigger] w0.players[j]) is Some && w0.positions[j] is Some
                        && w0.circles[j] is Some {
                        world@.players[j] == Some(Player {
                            is_alive: w0.players[j].unwrap().is_alive
                                && !exists|be: int| #[trigger] bullet_kills(w0, j, be),
                            ..w0.players[j].unwrap()
                        })
                    } else {
                        world@.players[j] == w0.players[j]
                    },
                forall|j: int| pe <= j < n ==> world@.players[j] == w0.players[j],
            decreases n - pe,
        {
            let eligible = world.players[pe].is_some() && world.positions[pe].is_some()
                && world.circles[pe].is_some();
            if eligible {
                let mut killed = false;
                let mut be: usize = 0;
                while be < n
                    invariant
                        world@.wf(),
                        n == w0.len(),
                        pe < n,
                        be <= n,
                        world@.alive == w0.alive,
                        world@.positions == w0.positions,
                        world@.circles == w0.circles,
                        world@.bullets == w0.bullets,
                        world@.players.len() == w0.players.len(),
                        world@.players[pe as int] == w0.players[pe as int],
                        w0.players[pe as int] is Some,
                        w0.positions[pe as int] is Some,
                        w0.circles[pe as int] is Some,
                        killed == exists|b: int| 0 <= b < be && #[trigger] bullet_kills(w0, pe as int, b),
                    decreases n - be,
                {
                    let candidate = world.bullets[be].is_some() && world.positions[be].is_some()
                        && world.circles[be].is_some();
                    if candidate {
                        let hit = match (&world.positions[pe], &world.circles[pe],
                                &world.positions[be], &world.circles[be]) {
                            (Some(pp), Some(pc), Some(bp), Some(bc)) =>
                                has_bullet_player_collision(pp, pc, bp, bc),
                            _ => false,
                        };
                        let foreign = match (&world.bullets[be], &world.players[pe]) {
                            (Some(b), Some(p)) => !b.owner_id.eq(&p.id),
                            _ => false,
                        };
                        if hit && foreign {
                            killed = true;
                            proof {
                                assert(bullet_kills(w0, pe as int, be as int));
                            }
                        } else {
                            proof {
                                assert(!bullet_kills(w0, pe as int, be as int));
                            }
                        }
                    }
                    be += 1;
                }
                let slot = world.players[pe].take();
                match slot {
                    Some(mut p) => {
                        if killed {
                            p.is_alive = false;
                        }
                        world.players[pe] = Some(p);
                    },
                    None => {},
                }
                proof {
                    assert(world@.players[pe as int] == Some(Player {
                        is_alive: w0.players[pe as int].unwrap().is_alive
                            && !exists|b: int| #[trigger] bullet_kills(w0, pe as int, b),
                        ..w0.players[pe as int].unwrap()
                    }));
                }
            }
            pe += 1;
        }
    }
}

} // verus!

// === Bullet spawning, cooldowns and the tick dispatch =====================

verus! {

/// The count of aiming shooters below `n` never exceeds `n`.
proof fn lemma_shooters_upto_bound(w: WorldModel, n: int)
    requires
        n >= 0,
    ensures
        0 <= aiming_shooters_upto(w, n) <= n,
    decreases n,
{
    if n > 0 {
        lemma_shooters_upto_bound(w, n - 1);
    }
}

/// A spawned bullet stays spawned: the predicate only reads the fresh
/// entity's own row, which later phases never touch.
proof fn lemma_bullet_spawned_stable(
    w0: WorldModel,
    wa: WorldModel,
    wb: WorldModel,
    se: int,
    ne: int,
)
    requires
        bullet_spawned_for(w0, wa, se, ne),
        wa.len() <= wb.len(),
        wb.alive[ne] == wa.alive[ne],
        wb.players[ne] == wa.players[ne],
        wb.inputs[ne] == wa.inputs[ne],
        wb.bullets[ne] == wa.bullets[ne],
        wb.positions[ne] == wa.positions[ne],
        wb.movements[ne] == wa.movements[ne],
        wb.circles[ne] == wa.circles[ne],
    ensures
        bullet_spawned_for(w0, wb, se, ne),
{
}

impl HandleInputs {
    /// Intent resolution while a game runs: each entity with a player and a
    /// movement interprets and consumes its pending intent.
    pub fn handle_game_inputs(&self, world: &mut World)
        requires
            old(world)@.wf(),
        ensures
            final(world)@.wf(),
            game_inputs_handled(old(world)@, final(world)@),
    {
        let ghost w0 = world@;
        let n = world.len();
        let mut e: usize = 0;
        while e < n
            invariant
                world@.wf(),
                n == w0.len(),
                e <= n,
                world@.alive == w0.alive,
                world@.positions == w0.positions,
                world@.circles == w0.circles,
                world@.bullets == w0.bullets,
                world@.inputs == w0.inputs,
                world@.players.len() == w0.players.len(),
                world@.movements.len() == w0.movements.len(),
                forall|j: int| 0 <= j < e ==>
                    if (#[trigger] w0.players[j]) is Some && w0.movements[j] is Some {
                        &&& world@.players[j] is Some && world@.movements[j] is Some
                        &&& game_intent_applied(
                            w0.players[j].unwrap(),
                            w0.movements[j].unwrap(),
                            world@.players[j].unwrap(),
                            world@.movements[j].unwrap(),
                        )
                    } else {
                        world@.players[j] == w0.players[j]
                            && world@.movements[j] == w0.movements[j]
                    },
                forall|j: int| e <= j < n ==>
                    world@.players[j] == w0.players[j]
                        && world@.movements[j] == w0.movements[j],
            decreases n - e,
        {
            let pair = world.players[e].is_some() && world.movements[e].is_some();
            if pair {
                let intent = match &world.players[e] {
                    Some(p) => p.next_input.duplicate(),
                    None => RemoteInput::NoInput,
                };
                match intent {
                    RemoteInput::GameInput(GameInput::Move(direction)) => {
                        let cd = clamp_dir(direction);
                        let mslot = world.movements[e].take();
                        match mslot {
                            Some(mut m) => {
                                m.set_player_direction(cd);
                                world.movements[e] = Some(m);
                            },
                            None => {},
                        }
                        let pslot = world.players[e].take();
                        match pslot {
                            Some(mut p) => {
                                p.next_input = RemoteInput::NoInput;
                                world.players[e] = Some(p);
                            },
                            None => {},
                        }
                    },
                    RemoteInput::GameInput(GameInput::Stop) => {
                        let mslot = world.movements[e].take();
                        match mslot {
                            Some(mut m) => {
                                m.stop();
                                world.movements[e] = Some(m);
                            },
                            None => {},
                        }
                        let pslot = world.players[e].take();
                        match pslot {
                            Some(mut p) => {
                                p.next_input = RemoteInput::NoInput;
                                world.players[e] = Some(p);
                            },
                            None => {},
                        }
                    },
                    RemoteInput::GameInput(GameInput::Aim(direction)) => {
                        let pslot = world.players[e].take();
                        match pslot {
                            Some(mut p) => {
                                p.aim = AimStatus::Aim(direction);
                                p.next_input = RemoteInput::NoInput;
                                world.players[e] = Some(p);
                            },
                            None => {},
                        }
                    },
                    RemoteInput::GameInput(GameInput::Shoot) => {
                        let pslot = world.players[e].take();
                        match pslot {
                            Some(mut p) => {
                                let can = matches!(p.shoot, ShootStatus::CanShoot);
                                if can {
                                    p.shoot = ShootStatus::Shooting;
                                } else {
                                    p.aim = AimStatus::NoAim;
                                }
                                p.next_input = RemoteInput::NoInput;
                                world.players[e] = Some(p);
                            },
                            None => {},
                        }
                    },
                    _ => {
                        let pslot = world.players[e].take();
                        match pslot {
                            Some(mut p) => {
                                p.next_input = RemoteInput::NoInput;
                                world.players[e] = Some(p);
                            },
                            None => {},
                        }
                    },
                }
                proof {
                    assert(game_intent_applied(
                        w0.players[e as int].unwrap(),
                        w0.movements[e as int].unwrap(),
                        world@.players[e as int].unwrap(),
                        world@.movements[e as int].unwrap(),
                    ));
                }
            }
            e += 1;
        }
    }

    /// Spawn phase: every aiming shooter fires one fresh bullet entity and
    /// starts its cooldown; a shooter without an aim only resets.
    #[verifier::rlimit(30)]
    pub fn run_bullet_spawns(&self, world: &mut World)
        requires
            old(world)@.wf(),
            old(world)@.len() <= 0x3fffffff,
        ensures
            final(world)@.wf(),
            bullets_spawned(old(world)@, final(world)@),
    {
        let ghost w0 = world@;
        let n = world.len();
        let mut e: usize = 0;
        while e < n
            invariant
                world@.wf(),
                n == w0.len(),
                n <= 0x3fffffff,
                e <= n,
                world@.len() == n + aiming_shooters_upto(w0, e as int),
                0 <= aiming_shooters_upto(w0, e as int) <= e,
                forall|j: int| 0 <= j < n ==> {
                    &&& (#[trigger] world@.alive[j]) == w0.alive[j]
                    &&& world@.positions[j] == w0.positions[j]
                    &&& world@.movements[j] == w0.movements[j]
                    &&& world@.circles[j] == w0.circles[j]
                    &&& world@.bullets[j] == w0.bullets[j]
                    &&& world@.inputs[j] == w0.inputs[j]
                },
                forall|j: int| 0 <= j < e ==>
                    (#[trigger] world@.players[j]) == if is_shooter(w0, j) {
                        Some(after_shot(w0.players[j].unwrap()))
                    } else {
                        w0.players[j]
                    },
                forall|j: int| e <= j < n ==> (#[trigger] world@.players[j]) == w0.players[j],
                forall|ne: int| n <= ne < world@.len() ==>
                    (#[trigger] world@.alive[ne])
                        && exists|se: int| #[trigger] bullet_spawned_for(w0, world@, se, ne),
                forall|se: int| 0 <= se < e && #[trigger] aiming_shooter(w0, se) ==>
                    bullet_spawned_for(w0, world@, se, n + aiming_shooters_upto(w0, se)),
            decreases n - e,
        {
            let ghost w_iter = world@;
            let eligible = world.players[e].is_some() && world.positions[e].is_some();
            if eligible {
                let shooting = match &world.players[e] {
                    Some(p) => matches!(p.shoot, ShootStatus::Shooting),
                    None => false,
                };
                if shooting {
                    let aim = match &world.players[e] {
                        Some(p) => p.aim,
                        None => AimStatus::NoAim,
                    };
                    match aim {
                        AimStatus::Aim(direction) => {
                            let owner = match &world.players[e] {
                                Some(p) => p.id.clone(),
                                None => String::new(),
                            };
                            let pos = world.positions[e].unwrap();
                            let ne = world.create_entity();
                            world.bullets[ne] = Some(Bullet::new(owner));
                            world.positions[ne] = Some(pos);
                            world.movements[ne] = Some(Movement::new_bullet_movement(clamp_dir(direction)));
                            world.circles[ne] = Some(Circle::new_bullet_circle());
                            proof {
                                assert(bullet_spawned_for(w0, world@, e as int, ne as int));
                            }
                            let ghost w_sp = world@;
                            let ghost gne = ne as int;
                            let slot = world.players[e].take();
                            match slot {
                                Some(mut p) => {
                                    p.update_after_shot();
                                    world.players[e] = Some(p);
                                },
                                None => {},
                            }
                            proof {
                                lemma_bullet_spawned_stable(w0, w_sp, world@, e as int, gne);
                                assert(world@.alive[gne]);
                            }
                        },
                        AimStatus::NoAim => {
                            let slot = world.players[e].take();
                            match slot {
                                Some(mut p) => {
                                    p.update_after_shot();
                                    world.players[e] = Some(p);
                                },
                                None => {},
                            }
                        },
                    }
                }
            }
            proof {
                lemma_shooters_upto_step(w0, e as int);
                assert(world@.wf());
                assert forall|ne: int| n <= ne < w_iter.len()
                    && (exists|se: int| #[trigger] bullet_spawned_for(w0, w_iter, se, ne)) implies
                    (#[trigger] world@.alive[ne])
                        && exists|se: int| #[trigger] bullet_spawned_for(w0, world@, se, ne) by {
                    let se = choose|se: int| bullet_spawned_for(w0, w_iter, se, ne);
                    lemma_bullet_spawned_stable(w0, w_iter, world@, se, ne);
                }
                assert forall|se: int| 0 <= se < e as int && #[trigger] aiming_shooter(w0, se)
                    && bullet_spawned_for(w0, w_iter, se, n + aiming_shooters_upto(w0, se))
                    implies
                    bullet_spawned_for(w0, world@, se, n + aiming_shooters_upto(w0, se)) by {
                    lemma_bullet_spawned_stable(
                        w0,
                        w_iter,
                        world@,
                        se,
                        n + aiming_shooters_upto(w0, se),
                    );
                }
            }
            e += 1;
        }
        proof {
            assert(world@.len() == w0.len() + aiming_shooters_upto(w0, w0.len() as int));
            assert(bullets_spawned(w0, world@));
        }
    }

    /// Cooldown phase: every cooling player counts one tick down; a spent
    /// cooldown becomes permission to shoot again.
    pub fn run_cooldowns(&self, world: &mut World)
        requires
            old(world)@.wf(),
        ensures
            final(world)@.wf(),
            cooldowns_applied(old(world)@, final(world)@),
    {
        let ghost w0 = world@;
        let n = world.len();
        let mut e: usize = 0;
        while e < n
            invariant
                world@.wf(),
                n == w0.len(),
                e <= n,
                world@.alive == w0.alive,
                world@.positions == w0.positions,
                world@.movements == w0.movements,
                world@.circles == w0.circles,
                world@.bullets == w0.bullets,
                world@.inputs == w0.inputs,
                world@.players.len() == w0.players.len(),
                forall|j: int| 0 <= j < e ==>
                    (#[trigger] world@.players[j]) == match w0.players[j] {
                        Some(p) => Some(cooled(p)),
                        None => None::<Player>,
                    },
                forall|j: int| e <= j < n ==> (#[trigger] world@.players[j]) == w0.players[j],
            decreases n - e,
        {
            let slot = world.players[e].take();
            match slot {
                Some(mut p) => {
                    match p.shoot {
                        ShootStatus::FrameLeftUntilNextShot(number_of_frames) => {
                            if number_of_frames > 0 {
                                p.shoot = ShootStatus::FrameLeftUntilNextShot(number_of_frames - 1);
                            } else {
                                p.shoot = ShootStatus::CanShoot;
                            }
                        },
                        _ => {},
                    }
                    world.players[e] = Some(p);
                },
                None => {
                    world.players[e] = None;
                },
            }
            e += 1;
        }
    }

    /// The world update while a game runs, in its fixed order: movement and
    /// wall collision, bullet-player collision, bullet spawn, cooldown
    /// decay.
    pub fn update_game(&self, world: &mut World, state: &State)
        requires
            old(world)@.wf(),
            old(world)@.len() <= 0x3fffffff,
        ensures
            final(world)@.wf(),
            game_updated(old(world)@, final(world)@, state.map),
    {
        let ghost w0 = world@;
        self.run_movement(world, &state.map);
        let ghost m1 = world@;
        self.run_bullet_collisions(world);
        let ghost m2 = world@;
        self.run_bullet_spawns(world);
        let ghost m3 = world@;
        self.run_cooldowns(world);
        proof {
            assert(game_update_trace(w0, world@, state.map, (m1, m2, m3)));
        }
    }
}

/// One in-game tick of the handler: intent resolution, then the world
/// update, with the intermediate world as explicit witness.
pub open spec fn in_game_step(w0: WorldModel, w1: WorldModel, map: GameMap, wm: WorldModel) -> bool {
    game_inputs_handled(w0, wm) && game_updated(wm, w1, map)
}

impl HandleInputs {
    /// The phase dispatch: configuration handling before and between games,
    /// intent resolution plus world update while a game runs.
    pub fn run(&self, world: &mut World, state: &mut State)
        requires
            old(world)@.wf(),
            old(state).map.wf(),
            old(world)@.len() <= 0x3fffffff,
        ensures
            final(world)@.wf(),
            final(state).map.wf(),
            match old(state).phase {
                Phase::BeforeNextGame | Phase::BreakInGame => configuration_handled(
                    old(world)@,
                    old(state).map,
                    old(state).phase,
                    final(world)@,
                    final(state).map,
                    final(state).phase,
                ),
                Phase::InGame => *final(state) == *old(state)
                    && exists|wm: WorldModel|
                        #[trigger] in_game_step(old(world)@, final(world)@, old(state).map, wm),
            },
    {
        let in_game = matches!(state.phase, Phase::InGame);
        if !in_game {
            self.handle_configuration_inputs(world, state);
        } else {
            let ghost w0 = world@;
            self.handle_game_inputs(world);
            let ghost wm = world@;
            self.update_game(world, state);
            proof {
                assert(in_game_step(w0, world@, state.map, wm));
            }
        }
    }
}

/// One full simulation tick with the intermediate world as witness: input
/// resolution first, then the phase-dependent handler.
pub open spec fn tick_trace(
    w0: WorldModel,
    map0: GameMap,
    phase0: Phase,
    w1: WorldModel,
    map1: GameMap,
    phase1: Phase,
    wm: WorldModel,
) -> bool {
    &&& inputs_resolved(w0, wm, w0.len() as int)
    &&& match phase0 {
        Phase::BeforeNextGame | Phase::BreakInGame =>
            configuration_handled(wm, map0, phase0, w1, map1, phase1),
        Phase::InGame => map1 == map0 && phase1 == phase0
            && exists|wg: WorldModel| #[trigger] in_game_step(wm, w1, map0, wg),
    }
}

/// One full simulation tick: input resolution, then the phase handler, in
/// the fixed dispatcher order.
pub fn tick(world: &mut World, state: &mut State)
    requires
        old(world)@.wf(),
        old(state).map.wf(),
        old(world)@.len() <= 0x1fffffff,
    ensures
        final(world)@.wf(),
        final(state).map.wf(),
        exists|wm: WorldModel| #[trigger] tick_trace(
            old(world)@,
            old(state).map,
            old(state).phase,
            final(world)@,
            final(state).map,
            final(state).phase,
            wm,
        ),
{
    let retrieve = RetrievePlayerForInputs;
    let handle = HandleInputs;
    let ghost w0 = world@;
    retrieve.run(world);
    let ghost wm = world@;
    handle.run(world, state);
    proof {
        assert(tick_trace(
            w0,
            old(state).map,
            old(state).phase,
            world@,
            state.map,
            state.phase,
            wm,
        ));
    }
}

} // verus!

// === Laws of the tick pipeline ============================================

verus! {

/// A stationary entity rests: movement integration at zero velocity leaves
/// the position unchanged, so repeating it any number of ticks leaves the
/// position unchanged too.
pub proof fn lemma_rest_is_fixed(p: Position, m: Movement, c: Circle, map: GameMap)
    requires
        m.velocity_x() == 0,
        m.velocity_y() == 0,
    ensures
        moved_position(p, m, c, map) == p,
{
    let cand = Position { x: (p.x as int + m.velocity_x()) as i64, y: (p.y as int + m.velocity_y()) as i64 };
    assert(cand == p);
}

/// A `Move` intent followed next tick by `Stop` yields exactly one tick of
/// displacement and then rest, for every direction: the move tick commits
/// the candidate one step along the clamped direction (provided no wall
/// sample or arena bound blocks it), and the stop tick and every later
/// integration leave the position unchanged.
pub proof fn lemma_move_then_stop(
    d: Dir,
    p0: Player,
    m0: Movement,
    p1: Player,
    m1: Movement,
    pos0: Position,
    pa: Player,
    p2: Player,
    m2: Movement,
    c: Circle,
    map: GameMap,
)
    requires
        p0.next_input == RemoteInput::GameInput(GameInput::Move(d)),
        game_intent_applied(p0, m0, p1, m1),
        wf_position(Position {
            x: (pos0.x as int + scale_by_unit_spec(PLAYER_SPEED as int, clamp_dir_spec(d).x as int)) as i64,
            y: (pos0.y as int + scale_by_unit_spec(PLAYER_SPEED as int, clamp_dir_spec(d).y as int)) as i64,
        }),
        !wall_collision_spec(
            Position {
                x: (pos0.x as int + scale_by_unit_spec(PLAYER_SPEED as int, clamp_dir_spec(d).x as int)) as i64,
                y: (pos0.y as int + scale_by_unit_spec(PLAYER_SPEED as int, clamp_dir_spec(d).y as int)) as i64,
            },
            c,
            map,
        ),
        pa.next_input == RemoteInput::GameInput(GameInput::Stop),
        game_intent_applied(pa, m1, p2, m2),
    ensures
        moved_position(pos0, m1, c, map) == (Position {
            x: (pos0.x as int + scale_by_unit_spec(PLAYER_SPEED as int, clamp_dir_spec(d).x as int)) as i64,
            y: (pos0.y as int + scale_by_unit_spec(PLAYER_SPEED as int, clamp_dir_spec(d).y as int)) as i64,
        }),
        forall|q: Position| #[trigger] moved_position(q, m2, c, map) == q,
{
    assert forall|q: Position| #[trigger] moved_position(q, m2, c, map) == q by {
        lemma_rest_is_fixed(q, m2, c, map);
    }
}

/// With no players present, configuration handling never starts the game
/// and leaves the world without players, so the phase stays put however
/// many ticks elapse.
pub proof fn lemma_empty_world_never_starts(
    w0: WorldModel,
    map0: GameMap,
    phase0: Phase,
    w1: WorldModel,
    map1: GameMap,
    phase1: Phase,
)
    requires
        configuration_handled(w0, map0, phase0, w1, map1, phase1),
        !some_player(w0.players),
    ensures
        phase1 == phase0,
        !some_player(w1.players),
        map1 == map0,
{
    assert forall|e: int| 0 <= e < w1.players.len() implies !((#[trigger] w1.players[e]) is Some) by {
        if w1.players[e] is Some {
            assert(w0.players[e] is Some);
        }
    }
}

/// The configuration phase starts the game exactly when, after the tick's
/// intents applied, the player set is non-empty and every player is ready.
pub proof fn lemma_phase_transition_iff(
    w0: WorldModel,
    map0: GameMap,
    phase0: Phase,
    w1: WorldModel,
    map1: GameMap,
    phase1: Phase,
)
    requires
        configuration_handled(w0, map0, phase0, w1, map1, phase1),
        phase0 != Phase::InGame,
    ensures
        phase1 == Phase::InGame <==> (some_player(w1.players) && all_ready(w1.players)),
{
}

/// A shot intent from a player whose cooldown has not expired changes no
/// movement, clears the aim and leaves the shoot status as it was: no
/// bullet will spawn for it.
pub proof fn lemma_illegal_shot_clears_aim(p0: Player, m0: Movement, p1: Player, m1: Movement)
    requires
        p0.next_input == RemoteInput::GameInput(GameInput::Shoot),
        p0.shoot != ShootStatus::CanShoot,
        game_intent_applied(p0, m0, p1, m1),
    ensures
        p1.aim == AimStatus::NoAim,
        p1.shoot == p0.shoot,
        m1 == m0,
{
}

/// The spawn phase fires no bullet on behalf of a player who is not
/// `Shooting`: every fresh bullet carries some shooter's stable id, and
/// stable ids are unique.
pub proof fn lemma_no_bullet_for_non_shooter(w0: WorldModel, w1: WorldModel, pe: int)
    requires
        w0.wf(),
        bullets_spawned(w0, w1),
        0 <= pe < w0.len(),
        w0.players[pe] is Some,
        w0.players[pe].unwrap().shoot != ShootStatus::Shooting,
    ensures
        forall|ne: int| w0.len() <= ne < w1.len() ==>
            ((#[trigger] w1.bullets[ne]) matches Some(b)
                ==> b.owner_id@ != w0.players[pe].unwrap().id@),
{
    assert forall|ne: int| w0.len() <= ne < w1.len()
        && (#[trigger] w1.bullets[ne]) is Some implies
        w1.bullets[ne].unwrap().owner_id@ != w0.players[pe].unwrap().id@ by {
        assert(w1.alive[ne]);
        let se = choose|se: int| bullet_spawned_for(w0, w1, se, ne);
        assert(aiming_shooter(w0, se));
        assert(se != pe);
    }
}

/// A bullet whose owner id equals a candidate player's id never triggers
/// that player's death: when every bullet in flight belongs to the player,
/// the collision phase leaves the player's life untouched, whatever the
/// positions and radii.
pub proof fn lemma_no_self_damage(w0: WorldModel, w1: WorldModel, pe: int)
    requires
        w0.wf(),
        bullet_collisions_applied(w0, w1),
        0 <= pe < w0.players.len(),
        w0.players[pe] is Some,
        forall|be: int| 0 <= be < w0.len() && (#[trigger] w0.bullets[be]) is Some
            ==> w0.bullets[be].unwrap().owner_id@ == w0.players[pe].unwrap().id@,
    ensures
        w1.players[pe] is Some,
        w1.players[pe].unwrap().is_alive == w0.players[pe].unwrap().is_alive,
{
    if w0.positions[pe] is Some && w0.circles[pe] is Some {
        assert(!exists|be: int| #[trigger] bullet_kills(w0, pe, be)) by {
            if exists|be: int| #[trigger] bullet_kills(w0, pe, be) {
                let be = choose|be: int| #[trigger] bullet_kills(w0, pe, be);
                assert(w0.bullets[be] is Some);
            }
        }
    }
}

} // verus!

verus! {

/// Entities without pending inputs resolve to identity: the chain from a
/// world whose inputs are all empty ends where it began.
proof fn lemma_idle_trace_prefix(w0: WorldModel, trace: Seq<WorldModel>, i: int)
    requires
        forall|e: int| 0 <= e < w0.len() ==> !((#[trigger] w0.inputs[e]) is Some),
        0 <= i < trace.len(),
        trace[0] == w0,
        forall|j: int| 0 <= j < trace.len() - 1 ==>
            input_step(#[trigger] trace[j], trace[j + 1], j),
        trace.len() <= w0.len() + 1,
    ensures
        trace[i] == w0,
    decreases i,
{
    if i > 0 {
        lemma_idle_trace_prefix(w0, trace, i - 1);
        assert(input_step(trace[i - 1], trace[i], i - 1));
    }
}

/// Input resolution over a world with no pending inputs changes nothing.
pub proof fn lemma_idle_resolution(w0: WorldModel, w1: WorldModel)
    requires
        inputs_resolved(w0, w1, w0.len() as int),
        forall|e: int| 0 <= e < w0.len() ==> !((#[trigger] w0.inputs[e]) is Some),
    ensures
        w1 == w0,
{
    let trace = choose|t: Seq<WorldModel>|
        inputs_resolved_trace(w0, w1, w0.len() as int, t);
    lemma_idle_trace_prefix(w0, trace, w0.len() as int);
}

/// A whole tick on an empty, input-free world before a game is a fixed
/// point: no players can ready up, so the phase never transitions however
/// many such ticks elapse.
pub proof fn lemma_empty_idle_tick(
    w0: WorldModel,
    map0: GameMap,
    phase0: Phase,
    w1: WorldModel,
    map1: GameMap,
    phase1: Phase,
    wm: WorldModel,
)
    requires
        w0.wf(),
        tick_trace(w0, map0, phase0, w1, map1, phase1, wm),
        phase0 != Phase::InGame,
        !some_player(w0.players),
        forall|e: int| 0 <= e < w0.len() ==> !((#[trigger] w0.inputs[e]) is Some),
    ensures
        phase1 == phase0,
        map1 == map0,
        w1 =~= w0,
{
    lemma_idle_resolution(w0, wm);
    assert(configuration_handled(wm, map0, phase0, w1, map1, phase1));
    lemma_empty_world_never_starts(wm, map0, phase0, w1, map1, phase1);
    assert forall|e: int| 0 <= e < w0.players.len() implies
        (#[trigger] w1.players[e]) == w0.players[e] by {
        if w0.players[e] is Some {
        } else {
            assert(!(w1.players[e] is Some));
        }
    }
    assert(w1.players =~= w0.players);
}

} // verus!
