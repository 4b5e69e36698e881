//! Components attached to world entities: positions, movement vectors,
//! hit geometry and per-player state.
//!
//! All world geometry is fixed point: one block is `UNITS_PER_BLOCK`
//! coordinate units, and a direction is a unit vector whose components are
//! scaled by `DIR_SCALE`. At 30 ticks per second this makes the reference
//! speeds (half a block per second for players, one block per second for
//! bullets) exact integers per tick.

use vstd::prelude::*;
use crate::remotes::RemoteInput;

verus! {

/// Fixed-point units in one block.
pub const UNITS_PER_BLOCK: i64 = 3000;

/// Simulation ticks per second.
pub const FRAME_PER_SECOND: u32 = 30;

/// Player speed in units per tick: half a block per second.
pub const PLAYER_SPEED: i64 = 50;

/// Bullet speed in units per tick: one block per second.
pub const BULLET_SPEED: i64 = 100;

/// Player hit radius: a tenth of a block.
pub const DEFAULT_PLAYER_RADIUS: i64 = 300;

/// Bullet hit radius: a twentieth of a block, strictly smaller than a player.
pub const DEFAULT_BULLET_RADIUS: i64 = 150;

/// Number of boundary sample points on a hit circle.
pub const DEFAULT_HIT_POINTS_NUMBER: usize = 20;

/// Shot cooldown, in ticks.
pub const NUMBER_OF_FRAMES_BETWEEN_SHOTS: u32 = 15;

/// Scale of the components of a unit direction vector.
pub const DIR_SCALE: i64 = 1000;

/// Coordinates are kept within this bound; a move that would leave it is
/// rejected like a wall hit. It is over three hundred million blocks, far
/// beyond any level.
pub const ARENA_LIMIT: i64 = 0x100_0000_0000;

/// A direction as a fixed-point unit vector: `x` and `y` are the cosine and
/// sine of the angle, scaled by `DIR_SCALE`.
#[derive(Clone, Copy, PartialEq, Eq, Structural, Debug)]
pub struct Dir {
    pub x: i64,
    pub y: i64,
}

/// A direction vector is well formed when both components are within the
/// unit scale.
pub open spec fn wf_dir(d: Dir) -> bool {
    -DIR_SCALE <= d.x <= DIR_SCALE && -DIR_SCALE <= d.y <= DIR_SCALE
}

/// `mag` scaled by the fixed-point unit component `c`, rounding the
/// magnitude of the result down.
pub open spec fn scale_by_unit_spec(mag: int, c: int) -> int {
    if c >= 0 {
        (mag * c) / (DIR_SCALE as int)
    } else {
        -((mag * (-c)) / (DIR_SCALE as int))
    }
}

/// Multiply a non-negative magnitude by a unit direction component.
pub fn scale_by_unit(mag: i64, c: i64) -> (r: i64)
    requires
        0 <= mag <= 100000,
        -DIR_SCALE <= c <= DIR_SCALE,
    ensures
        r as int == scale_by_unit_spec(mag as int, c as int),
        -mag <= r <= mag,
{
    proof {
        lemma_scale_by_unit_bounds(mag as int, c as int);
    }
    if c >= 0 {
        let p: u64 = (mag as u64) * (c as u64);
        (p / 1000) as i64
    } else {
        let p: u64 = (mag as u64) * ((-c) as u64);
        -((p / 1000) as i64)
    }
}

/// The scaled value never exceeds the magnitude itself.
proof fn lemma_scale_by_unit_bounds(mag: int, c: int)
    requires
        0 <= mag <= 100000,
        -1000 <= c <= 1000,
    ensures
        0 <= c ==> 0 <= (mag * c) / 1000 <= mag && mag * c <= 100000000,
        c < 0 ==> 0 <= (mag * (-c)) / 1000 <= mag && mag * (-c) <= 100000000,
{
    let a = if c >= 0 { c } else { -c };
    assert(0 <= mag * a <= mag * 1000 <= 100000000) by (nonlinear_arith)
        requires 0 <= mag <= 100000 && 0 <= a <= 1000;
    assert((mag * a) / 1000 <= (mag * 1000) / 1000) by (nonlinear_arith)
        requires 0 <= mag * a <= mag * 1000;
    assert((mag * 1000) / 1000 == mag) by (nonlinear_arith);
    assert(0 <= (mag * a) / 1000) by (nonlinear_arith)
        requires 0 <= mag * a;
}

/// A unit component clamped into the unit scale.
pub open spec fn clamp_unit_spec(c: int) -> int {
    if c < -DIR_SCALE { -DIR_SCALE as int } else if c > DIR_SCALE { DIR_SCALE as int } else { c }
}

/// `d` with both components clamped into the unit scale.
pub open spec fn clamp_dir_spec(d: Dir) -> Dir {
    Dir { x: clamp_unit_spec(d.x as int) as i64, y: clamp_unit_spec(d.y as int) as i64 }
}

/// Clamp a direction into the unit scale; a well-formed direction passes
/// through unchanged.
pub fn clamp_dir(d: Dir) -> (r: Dir)
    ensures
        r == clamp_dir_spec(d),
        wf_dir(r),
        wf_dir(d) ==> r == d,
{
    let x = if d.x < -DIR_SCALE { -DIR_SCALE } else if d.x > DIR_SCALE { DIR_SCALE } else { d.x };
    let y = if d.y < -DIR_SCALE { -DIR_SCALE } else if d.y > DIR_SCALE { DIR_SCALE } else { d.y };
    Dir { x, y }
}

/// World coordinates in fixed-point block units.
#[derive(Clone, Copy, PartialEq, Eq, Structural, Debug)]
pub struct Position {
    pub x: i64,
    pub y: i64,
}

/// A position is well formed when both coordinates are within the arena
/// bound.
pub open spec fn wf_position(p: Position) -> bool {
    -ARENA_LIMIT <= p.x <= ARENA_LIMIT && -ARENA_LIMIT <= p.y <= ARENA_LIMIT
}

impl Position {
    /// The origin.
    pub fn new() -> (r: Position)
        ensures
            r == (Position { x: 0, y: 0 }),
    {
        Position { x: 0, y: 0 }
    }

    /// The candidate position one tick of `movement` away from this one.
    pub fn next(&self, movement: &Movement) -> (r: Position)
        requires
            wf_position(*self),
            wf_movement(*movement),
        ensures
            r.x == self.x + movement.velocity_x() && r.y == self.y + movement.velocity_y(),
    {
        Position { x: self.x + movement.vx, y: self.y + movement.vy }
    }

    /// Overwrite this position with `new_position`.
    pub fn update(&mut self, new_position: &Position)
        ensures
            *final(self) == *new_position,
    {
        self.x = new_position.x;
        self.y = new_position.y;
    }
}

/// Velocity in units per tick, derived from the latest resolved intent;
/// both components zero means stationary.
#[derive(Clone, Copy, PartialEq, Eq, Structural, Debug)]
pub struct Movement {
    vx: i64,
    vy: i64,
}

/// A movement is well formed when its per-tick displacement is at most one
/// block on each axis.
pub open spec fn wf_movement(m: Movement) -> bool {
    -UNITS_PER_BLOCK <= m.velocity_x() <= UNITS_PER_BLOCK
        && -UNITS_PER_BLOCK <= m.velocity_y() <= UNITS_PER_BLOCK
}

impl Movement {
    /// The horizontal velocity component.
    pub closed spec fn velocity_x(self) -> int {
        self.vx as int
    }

    /// The vertical velocity component.
    pub closed spec fn velocity_y(self) -> int {
        self.vy as int
    }

    /// A stationary movement.
    pub fn new() -> (r: Movement)
        ensures
            r.velocity_x() == 0 && r.velocity_y() == 0,
            wf_movement(r),
    {
        Movement { vx: 0, vy: 0 }
    }

    /// The movement of a freshly fired bullet: bullet speed along
    /// `direction`.
    pub fn new_bullet_movement(direction: Dir) -> (r: Movement)
        requires
            wf_dir(direction),
        ensures
            r.velocity_x() == scale_by_unit_spec(BULLET_SPEED as int, direction.x as int),
            r.velocity_y() == scale_by_unit_spec(BULLET_SPEED as int, direction.y as int),
            wf_movement(r),
    {
        Movement {
            vx: scale_by_unit(BULLET_SPEED, direction.x),
            vy: scale_by_unit(BULLET_SPEED, direction.y),
        }
    }

    /// Point this movement along `direction` at the fixed player speed.
    pub fn set_player_direction(&mut self, direction: Dir)
        requires
            wf_dir(direction),
        ensures
            final(self).velocity_x() == scale_by_unit_spec(PLAYER_SPEED as int, direction.x as int),
            final(self).velocity_y() == scale_by_unit_spec(PLAYER_SPEED as int, direction.y as int),
            wf_movement(*final(self)),
    {
        self.vx = scale_by_unit(PLAYER_SPEED, direction.x);
        self.vy = scale_by_unit(PLAYER_SPEED, direction.y);
    }

    /// Come to rest.
    pub fn stop(&mut self)
        ensures
            final(self).velocity_x() == 0 && final(self).velocity_y() == 0,
            wf_movement(*final(self)),
    {
        self.vx = 0;
        self.vy = 0;
    }
}

/// Hit geometry: a radius and a precomputed ring of boundary sample offsets
/// around the origin, used for discrete wall-collision sampling.
#[derive(Clone, PartialEq, Eq, Debug)]
pub struct Circle {
    pub radius: i64,
    pub hit_points: Vec<Position>,
}

/// The cosine of the `k`-th of twenty evenly spaced ring angles, scaled by
/// `DIR_SCALE`.
pub open spec fn ring_cos(k: int) -> int {
    if k == 0 { 1000 } else if k == 1 { 951 } else if k == 2 { 809 }
    else if k == 3 { 588 } else if k == 4 { 309 } else if k == 5 { 0 }
    else if k == 6 { -309 } else if k == 7 { -588 } else if k == 8 { -809 }
    else if k == 9 { -951 } else if k == 10 { -1000 } else if k == 11 { -951 }
    else if k == 12 { -809 } else if k == 13 { -588 } else if k == 14 { -309 }
    else if k == 15 { 0 } else if k == 16 { 309 } else if k == 17 { 588 }
    else if k == 18 { 809 } else { 951 }
}

/// The sine of the `k`-th of twenty evenly spaced ring angles, scaled by
/// `DIR_SCALE`.
pub open spec fn ring_sin(k: int) -> int {
    if k == 0 { 0 } else if k == 1 { 309 } else if k == 2 { 588 }
    else if k == 3 { 809 } else if k == 4 { 951 } else if k == 5 { 1000 }
    else if k == 6 { 951 } else if k == 7 { 809 } else if k == 8 { 588 }
    else if k == 9 { 309 } else if k == 10 { 0 } else if k == 11 { -309 }
    else if k == 12 { -588 } else if k == 13 { -809 } else if k == 14 { -951 }
    else if k == 15 { -1000 } else if k == 16 { -951 } else if k == 17 { -809 }
    else if k == 18 { -588 } else { -309 }
}

/// The `k`-th boundary sample offset for a circle of radius `radius`.
pub open spec fn ring_offset(radius: int, k: int) -> Position {
    Position {
        x: scale_by_unit_spec(radius, ring_cos(k)) as i64,
        y: scale_by_unit_spec(radius, ring_sin(k)) as i64,
    }
}

/// The fixed-point direction of the `k`-th ring angle.
fn ring_direction(k: usize) -> (r: (i64, i64))
    requires
        k < DEFAULT_HIT_POINTS_NUMBER,
    ensures
        r.0 as int == ring_cos(k as int) && r.1 as int == ring_sin(k as int),
        -DIR_SCALE <= r.0 <= DIR_SCALE && -DIR_SCALE <= r.1 <= DIR_SCALE,
{
    match k {
        0 => (1000, 0),
        1 => (951, 309),
        2 => (809, 588),
        3 => (588, 809),
        4 => (309, 951),
        5 => (0, 1000),
        6 => (-309, 951),
        7 => (-588, 809),
        8 => (-809, 588),
        9 => (-951, 309),
        10 => (-1000, 0),
        11 => (-951, -309),
        12 => (-809, -588),
        13 => (-588, -809),
        14 => (-309, -951),
        15 => (0, -1000),
        16 => (309, -951),
        17 => (588, -809),
        18 => (809, -588),
        _ => (951, -309),
    }
}

/// A circle is well formed when its radius is at most one block and every
/// sample offset is within one block of the center.
pub open spec fn wf_circle(c: Circle) -> bool {
    &&& 0 <= c.spec_radius() <= UNITS_PER_BLOCK
    &&& forall|i: int| 0 <= i < c.hit_points@.len() ==>
        -UNITS_PER_BLOCK <= #[trigger] c.hit_points@[i].x <= UNITS_PER_BLOCK
        && -UNITS_PER_BLOCK <= c.hit_points@[i].y <= UNITS_PER_BLOCK
}

/// The ring of a preset circle: twenty offsets, each `radius` scaled along
/// one of the twenty ring angles.
pub open spec fn is_preset_ring(points: Seq<Position>, radius: int) -> bool {
    points.len() == DEFAULT_HIT_POINTS_NUMBER
        && forall|k: int| 0 <= k < points.len() ==> #[trigger] points[k] == ring_offset(radius, k)
}

impl Circle {
    /// The hit radius.
    pub open spec fn spec_radius(&self) -> int {
        self.radius as int
    }

    /// The player hit geometry preset.
    pub fn new_player_circle() -> (r: Circle)
        ensures
            r.spec_radius() == DEFAULT_PLAYER_RADIUS,
            is_preset_ring(r.hit_points@, DEFAULT_PLAYER_RADIUS as int),
            wf_circle(r),
    {
        Circle {
            radius: DEFAULT_PLAYER_RADIUS,
            hit_points: Self::build_hit_points(DEFAULT_PLAYER_RADIUS),
        }
    }

    /// The bullet hit geometry preset: strictly smaller than a player.
    pub fn new_bullet_circle() -> (r: Circle)
        ensures
            r.spec_radius() == DEFAULT_BULLET_RADIUS,
            is_preset_ring(r.hit_points@, DEFAULT_BULLET_RADIUS as int),
            wf_circle(r),
    {
        Circle {
            radius: DEFAULT_BULLET_RADIUS,
            hit_points: Self::build_hit_points(DEFAULT_BULLET_RADIUS),
        }
    }

    /// The diameter.
    pub fn get_size(&self) -> (r: i64)
        requires
            0 <= self.spec_radius() <= UNITS_PER_BLOCK,
        ensures
            r as int == 2 * self.spec_radius(),
    {
        self.radius * 2
    }

    /// The radius.
    pub fn get_radius(&self) -> (r: i64)
        ensures
            r as int == self.spec_radius(),
    {
        self.radius
    }

    /// The ring of twenty boundary sample offsets for a circle of radius
    /// `radius` centered at the origin.
    pub fn build_hit_points(radius: i64) -> (r: Vec<Position>)
        requires
            0 <= radius <= UNITS_PER_BLOCK,
        ensures
            is_preset_ring(r@, radius as int),
            forall|i: int| 0 <= i < r@.len() ==>
                -UNITS_PER_BLOCK <= #[trigger] r@[i].x <= UNITS_PER_BLOCK
                && -UNITS_PER_BLOCK <= r@[i].y <= UNITS_PER_BLOCK,
    {
        let mut circle_points: Vec<Position> = Vec::new();
        let mut i: usize = 0;
        while i < DEFAULT_HIT_POINTS_NUMBER
            invariant
                0 <= radius <= UNITS_PER_BLOCK,
                i <= DEFAULT_HIT_POINTS_NUMBER,
                circle_points@.len() == i,
                forall|k: int| 0 <= k < i ==>
                    #[trigger] circle_points@[k] == ring_offset(radius as int, k),
                forall|k: int| 0 <= k < i ==>
                    -UNITS_PER_BLOCK <= #[trigger] circle_points@[k].x <= UNITS_PER_BLOCK
                    && -UNITS_PER_BLOCK <= circle_points@[k].y <= UNITS_PER_BLOCK,
            decreases DEFAULT_HIT_POINTS_NUMBER - i,
        {
            let (c, s) = ring_direction(i);
            let x = scale_by_unit(radius, c);
            let y = scale_by_unit(radius, s);
            circle_points.push(Position { x, y });
            i += 1;
        }
        circle_points
    }
}

/// Whether a player may currently shoot, is firing this tick, or is cooling
/// down.
#[derive(Clone, Copy, PartialEq, Eq, Structural, Debug)]
pub enum ShootStatus {
    CanShoot,
    Shooting,
    FrameLeftUntilNextShot(u32),
}

/// Whether a player has an aim direction set.
#[derive(Clone, Copy, PartialEq, Eq, Structural, Debug)]
pub enum AimStatus {
    Aim(Dir),
    NoAim,
}

/// Whether a player has readied up for the next game.
#[derive(Clone, Copy, PartialEq, Eq, Structural, Debug)]
pub enum ReadyStatus {
    Ready,
    NotReady,
}

/// Per-player state: the live transport session, the stable identity that
/// survives reconnection, and the configuration and combat flags.
pub struct Player {
    pub socket_id: u32,
    pub id: String,
    pub name: String,
    pub status: ReadyStatus,
    pub aim: AimStatus,
    pub shoot: ShootStatus,
    pub next_input: RemoteInput,
    pub is_alive: bool,
}

impl Player {
    /// A fresh player bound to `socket_id` under the stable identity `id`.
    pub fn new(socket_id: u32, id: String) -> (r: Player)
        ensures
            r.socket_id == socket_id,
            r.id == id,
            r.name@ == Seq::<char>::empty(),
            r.status == ReadyStatus::NotReady,
            r.aim == AimStatus::NoAim,
            r.shoot == ShootStatus::CanShoot,
            r.next_input is NoInput,
            r.is_alive,
    {
        Player {
            socket_id,
            id,
            name: String::new(),
            status: ReadyStatus::NotReady,
            aim: AimStatus::NoAim,
            shoot: ShootStatus::CanShoot,
            next_input: RemoteInput::NoInput,
            is_alive: true,
        }
    }

    /// Whether this player has readied up.
    pub fn is_ready(&self) -> (r: bool)
        ensures
            r == (self.status == ReadyStatus::Ready),
    {
        self.status == ReadyStatus::Ready
    }

    /// Clear the aim and start the shot cooldown.
    pub fn update_after_shot(&mut self)
        ensures
            *final(self) == (Player {
                aim: AimStatus::NoAim,
                shoot: ShootStatus::FrameLeftUntilNextShot(NUMBER_OF_FRAMES_BETWEEN_SHOTS),
                ..*old(self)
            }),
    {
        self.aim = AimStatus::NoAim;
        self.shoot = ShootStatus::FrameLeftUntilNextShot(NUMBER_OF_FRAMES_BETWEEN_SHOTS);
    }
}

/// A bullet in flight and the stable identity of the player who fired it.
pub struct Bullet {
    pub owner_id: String,
}

impl Bullet {
    /// A bullet owned by the player with stable identity `owner_id`.
    pub fn new(owner_id: String) -> (r: Bullet)
        ensures
            r.owner_id == owner_id,
    {
        Bullet { owner_id }
    }
}

} // verus!
