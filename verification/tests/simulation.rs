use tank_arena::components::{AimStatus, Bullet, Circle, Dir, Movement, Position, ReadyStatus, ShootStatus};
use tank_arena::map::GameMap;
use tank_arena::remotes::{ConfigurationInput, GameInput, PlayerInput, RemoteInput};
use tank_arena::state::{Phase, State};
use tank_arena::game::{deliver_message_to_game, MessageToGame, RoomId};
use tank_arena::world::WorldError;
use tank_arena::systems::{tick, RetrievePlayerForInputs};
use tank_arena::world::World;

fn grid(rows: &[&str]) -> Vec<Vec<u8>> {
    rows.iter().map(|r| r.as_bytes().to_vec()).collect()
}

fn new_state(rows: &[&str]) -> State {
    let map = GameMap::from_lines(&grid(rows), (800, 600));
    State::new(String::from("http://example.test/?room-id=r"), map, (800, 600))
}

fn inject(world: &mut World, socket_id: u32, remote_input: RemoteInput) {
    let e = world.create_entity();
    world
        .insert_input(e, PlayerInput { socket_id, remote_input })
        .expect("fresh entity accepts an input");
}

fn player_entity(world: &World, id: &str) -> usize {
    RetrievePlayerForInputs
        .retrieve_player_from_id(world, &id.to_string())
        .expect("player should exist")
}

fn register(world: &mut World, state: &mut State, socket_id: u32, id: &str) {
    inject(
        world,
        socket_id,
        RemoteInput::ConfigurationInput(ConfigurationInput::PlayerId(id.to_string())),
    );
    tick(world, state);
}

fn ready(world: &mut World, state: &mut State, socket_id: u32) {
    inject(
        world,
        socket_id,
        RemoteInput::ConfigurationInput(ConfigurationInput::Ready),
    );
    tick(world, state);
}

fn east() -> Dir {
    Dir { x: 1000, y: 0 }
}

fn bullet_entities(world: &World) -> Vec<usize> {
    let mut found = Vec::new();
    for e in 0..world.len() {
        if world.bullet(e).is_some() {
            found.push(e);
        }
    }
    found
}

#[test]
fn two_sessions_ready_up_and_spawn() {
    // Two sessions register their stable ids, then both ready up; the tick
    // where the last Ready lands starts the game and gives both players
    // physical components on spawn blocks.
    let mut state = new_state(&["ss..............", "................"]);
    let mut world = World::new();

    register(&mut world, &mut state, 1, "alice");
    register(&mut world, &mut state, 2, "bob");
    assert!(matches!(state.phase, Phase::BeforeNextGame));

    let alice = player_entity(&world, "alice");
    let bob = player_entity(&world, "bob");
    assert_ne!(alice, bob);
    assert!(world.position(alice).is_none());

    inject(
        &mut world,
        1,
        RemoteInput::ConfigurationInput(ConfigurationInput::Ready),
    );
    tick(&mut world, &mut state);
    // only one of two players is ready: no transition yet
    assert!(matches!(state.phase, Phase::BeforeNextGame));

    inject(
        &mut world,
        2,
        RemoteInput::ConfigurationInput(ConfigurationInput::Ready),
    );
    tick(&mut world, &mut state);
    assert!(matches!(state.phase, Phase::InGame));

    for e in [alice, bob] {
        assert!(world.position(e).is_some(), "spawned player has a position");
        assert!(world.movement(e).is_some(), "spawned player has a movement");
        assert!(world.circle(e).is_some(), "spawned player has hit geometry");
    }
    // the two spawn centers differ: each spawn block is claimed once
    assert_ne!(world.position(alice).unwrap(), world.position(bob).unwrap());
    let a = world.position(alice).unwrap();
    let centers = [Position { x: 1500, y: 1500 }, Position { x: 4500, y: 1500 }];
    assert!(centers.contains(&a));
}

#[test]
fn zero_players_never_transition() {
    let mut state = new_state(&["s..."]);
    let mut world = World::new();
    for _ in 0..10 {
        tick(&mut world, &mut state);
        assert!(matches!(state.phase, Phase::BeforeNextGame));
    }
}

#[test]
fn not_ready_player_blocks_transition() {
    let mut state = new_state(&["ss.."]);
    let mut world = World::new();
    register(&mut world, &mut state, 1, "alice");
    for _ in 0..5 {
        tick(&mut world, &mut state);
        assert!(matches!(state.phase, Phase::BeforeNextGame));
    }
    ready(&mut world, &mut state, 1);
    assert!(matches!(state.phase, Phase::InGame));
}

#[test]
fn reconnect_rebinds_session() {
    let mut state = new_state(&["s..."]);
    let mut world = World::new();
    register(&mut world, &mut state, 1, "alice");
    let alice = player_entity(&world, "alice");
    assert_eq!(world.player(alice).as_ref().unwrap().socket_id, 1);

    // the same stable id from a new session rebinds, creating no player
    register(&mut world, &mut state, 7, "alice");
    let again = player_entity(&world, "alice");
    assert_eq!(again, alice);
    assert_eq!(world.player(alice).as_ref().unwrap().socket_id, 7);
    let players = (0..world.len()).filter(|&e| world.player(e).is_some()).count();
    assert_eq!(players, 1);
}

#[test]
fn unknown_session_input_is_dropped() {
    let mut state = new_state(&["s..."]);
    let mut world = World::new();
    inject(
        &mut world,
        9,
        RemoteInput::ConfigurationInput(ConfigurationInput::Ready),
    );
    let event = world.len() - 1;
    tick(&mut world, &mut state);
    // no player was created, and the event entity is gone
    let players = (0..world.len()).filter(|&e| world.player(e).is_some()).count();
    assert_eq!(players, 0);
    assert!(!world.is_alive(event));
    assert!(world.input(event).is_none());
}

#[test]
fn set_name_ignores_empty() {
    let mut state = new_state(&["s..."]);
    let mut world = World::new();
    register(&mut world, &mut state, 1, "alice");
    let alice = player_entity(&world, "alice");
    assert_eq!(world.player(alice).as_ref().unwrap().name, "");

    inject(
        &mut world,
        1,
        RemoteInput::ConfigurationInput(ConfigurationInput::SetName(String::from(""))),
    );
    tick(&mut world, &mut state);
    assert_eq!(world.player(alice).as_ref().unwrap().name, "");

    inject(
        &mut world,
        1,
        RemoteInput::ConfigurationInput(ConfigurationInput::SetName(String::from("Zed"))),
    );
    tick(&mut world, &mut state);
    assert_eq!(world.player(alice).as_ref().unwrap().name, "Zed");
}

#[test]
fn later_input_of_a_tick_wins() {
    let mut state = new_state(&["s..."]);
    let mut world = World::new();
    register(&mut world, &mut state, 1, "alice");
    let alice = player_entity(&world, "alice");
    inject(
        &mut world,
        1,
        RemoteInput::ConfigurationInput(ConfigurationInput::Ready),
    );
    inject(
        &mut world,
        1,
        RemoteInput::ConfigurationInput(ConfigurationInput::NotReady),
    );
    tick(&mut world, &mut state);
    assert_eq!(world.player(alice).as_ref().unwrap().status, ReadyStatus::NotReady);
}

#[test]
fn stationary_player_rests() {
    let mut state = new_state(&["s..."]);
    let mut world = World::new();
    register(&mut world, &mut state, 1, "alice");
    ready(&mut world, &mut state, 1);
    let alice = player_entity(&world, "alice");
    let at = *world.position(alice).as_ref().unwrap();
    for _ in 0..8 {
        tick(&mut world, &mut state);
        assert_eq!(*world.position(alice).as_ref().unwrap(), at);
    }
}

#[test]
fn move_then_stop_displaces_one_tick() {
    let mut state = new_state(&["s...............", "................"]);
    let mut world = World::new();
    register(&mut world, &mut state, 1, "alice");
    ready(&mut world, &mut state, 1);
    let alice = player_entity(&world, "alice");
    let start = *world.position(alice).as_ref().unwrap();

    inject(&mut world, 1, RemoteInput::GameInput(GameInput::Move(east())));
    tick(&mut world, &mut state);
    let after_move = *world.position(alice).as_ref().unwrap();
    assert_eq!(after_move, Position { x: start.x + 50, y: start.y });

    inject(&mut world, 1, RemoteInput::GameInput(GameInput::Stop));
    tick(&mut world, &mut state);
    assert_eq!(*world.position(alice).as_ref().unwrap(), after_move);
    for _ in 0..5 {
        tick(&mut world, &mut state);
        assert_eq!(*world.position(alice).as_ref().unwrap(), after_move);
    }
}

#[test]
fn wall_rejects_the_whole_move() {
    let mut state = new_state(&["s...", "..x.", "...."]);
    let mut world = World::new();
    register(&mut world, &mut state, 1, "alice");
    ready(&mut world, &mut state, 1);
    let alice = player_entity(&world, "alice");
    // stand just left of the wall block at column 2, row 1: the next step
    // east would sample the wall
    world
        .insert_position(alice, Position { x: 5650, y: 4500 })
        .unwrap();
    inject(&mut world, 1, RemoteInput::GameInput(GameInput::Move(east())));
    tick(&mut world, &mut state);
    assert_eq!(
        *world.position(alice).as_ref().unwrap(),
        Position { x: 5650, y: 4500 },
        "a move whose sample lands on a wall is rejected whole"
    );
}

#[test]
fn shoot_spawns_bullet_and_cools_down() {
    let mut state = new_state(&["s...............", "................"]);
    let mut world = World::new();
    register(&mut world, &mut state, 1, "alice");
    ready(&mut world, &mut state, 1);
    let alice = player_entity(&world, "alice");
    world
        .insert_position(alice, Position { x: 16500, y: 16500 })
        .unwrap();

    inject(&mut world, 1, RemoteInput::GameInput(GameInput::Aim(east())));
    tick(&mut world, &mut state);
    assert_eq!(world.player(alice).as_ref().unwrap().aim, AimStatus::Aim(east()));
    assert!(bullet_entities(&world).is_empty());

    inject(&mut world, 1, RemoteInput::GameInput(GameInput::Shoot));
    tick(&mut world, &mut state);
    let bullets = bullet_entities(&world);
    assert_eq!(bullets.len(), 1);
    let b = bullets[0];
    assert_eq!(world.bullet(b).as_ref().unwrap().owner_id, "alice");
    assert_eq!(
        *world.position(b).as_ref().unwrap(),
        Position { x: 16500, y: 16500 },
        "the bullet starts at the shooter's position"
    );
    assert!(world.circle(b).is_some());
    let alice_state = world.player(alice).as_ref().unwrap();
    assert_eq!(alice_state.aim, AimStatus::NoAim);
    assert_eq!(alice_state.shoot, ShootStatus::FrameLeftUntilNextShot(14));

    // the bullet flies east at bullet speed
    tick(&mut world, &mut state);
    assert_eq!(
        *world.position(b).as_ref().unwrap(),
        Position { x: 16600, y: 16500 }
    );

    // the cooldown counts down to zero, then shooting is allowed again
    for k in 0..13 {
        tick(&mut world, &mut state);
        assert_eq!(
            world.player(alice).as_ref().unwrap().shoot,
            ShootStatus::FrameLeftUntilNextShot(12 - k)
        );
    }
    tick(&mut world, &mut state);
    assert_eq!(
        world.player(alice).as_ref().unwrap().shoot,
        ShootStatus::CanShoot
    );
}

#[test]
fn shooting_without_permission_spawns_nothing() {
    let mut state = new_state(&["s...............", "................"]);
    let mut world = World::new();
    register(&mut world, &mut state, 1, "alice");
    ready(&mut world, &mut state, 1);
    let alice = player_entity(&world, "alice");

    inject(&mut world, 1, RemoteInput::GameInput(GameInput::Aim(east())));
    tick(&mut world, &mut state);
    inject(&mut world, 1, RemoteInput::GameInput(GameInput::Shoot));
    tick(&mut world, &mut state);
    assert_eq!(bullet_entities(&world).len(), 1);

    // aim again and retrigger while the cooldown runs: the aim is cleared
    // and no bullet spawns
    inject(&mut world, 1, RemoteInput::GameInput(GameInput::Aim(east())));
    tick(&mut world, &mut state);
    assert_eq!(world.player(alice).as_ref().unwrap().aim, AimStatus::Aim(east()));
    inject(&mut world, 1, RemoteInput::GameInput(GameInput::Shoot));
    tick(&mut world, &mut state);
    let alice_state = world.player(alice).as_ref().unwrap();
    assert_eq!(alice_state.aim, AimStatus::NoAim);
    assert!(matches!(
        alice_state.shoot,
        ShootStatus::FrameLeftUntilNextShot(_)
    ));
    assert_eq!(bullet_entities(&world).len(), 1, "no second bullet spawned");
}

#[test]
fn own_bullet_never_kills_its_owner() {
    let mut state = new_state(&["s...............", "................"]);
    let mut world = World::new();
    register(&mut world, &mut state, 1, "alice");
    ready(&mut world, &mut state, 1);
    let alice = player_entity(&world, "alice");
    let at = *world.position(alice).as_ref().unwrap();

    // a bullet owned by alice sits exactly on alice
    let own = world.create_entity();
    world.insert_bullet(own, Bullet::new(String::from("alice"))).unwrap();
    world.insert_position(own, at).unwrap();
    world.insert_circle(own, Circle::new_bullet_circle()).unwrap();
    world.insert_movement(own, Movement::new()).unwrap();
    for _ in 0..3 {
        tick(&mut world, &mut state);
        assert!(world.player(alice).as_ref().unwrap().is_alive);
    }

    // a foreign bullet in the same spot kills
    let foreign = world.create_entity();
    world.insert_bullet(foreign, Bullet::new(String::from("bob"))).unwrap();
    world.insert_position(foreign, at).unwrap();
    world.insert_circle(foreign, Circle::new_bullet_circle()).unwrap();
    world.insert_movement(foreign, Movement::new()).unwrap();
    tick(&mut world, &mut state);
    assert!(!world.player(alice).as_ref().unwrap().is_alive);
}

#[test]
fn game_intents_rejected_before_game() {
    let mut state = new_state(&["s..."]);
    let mut world = World::new();
    register(&mut world, &mut state, 1, "alice");
    let alice = player_entity(&world, "alice");
    inject(&mut world, 1, RemoteInput::GameInput(GameInput::Aim(east())));
    tick(&mut world, &mut state);
    // before the game starts, game intents change nothing
    assert_eq!(world.player(alice).as_ref().unwrap().aim, AimStatus::NoAim);
    assert!(world.position(alice).is_none());
}

#[test]
fn spawn_pool_shortage_leaves_spectators() {
    // one spawn block, two players: one of them stays without physical
    // components until an upstream policy decides
    let mut state = new_state(&["s..."]);
    let mut world = World::new();
    register(&mut world, &mut state, 1, "alice");
    register(&mut world, &mut state, 2, "bob");
    inject(
        &mut world,
        1,
        RemoteInput::ConfigurationInput(ConfigurationInput::Ready),
    );
    inject(
        &mut world,
        2,
        RemoteInput::ConfigurationInput(ConfigurationInput::Ready),
    );
    tick(&mut world, &mut state);
    assert!(matches!(state.phase, Phase::InGame));
    let alice = player_entity(&world, "alice");
    let bob = player_entity(&world, "bob");
    let with_position =
        [alice, bob].iter().filter(|&&e| world.position(e).is_some()).count();
    assert_eq!(with_position, 1);
}

#[test]
fn messages_deliver_between_ticks() {
    let mut state = new_state(&["s..."]);
    let mut world = World::new();

    deliver_message_to_game(
        &mut world,
        &mut state,
        MessageToGame::RoomId(RoomId(String::from("r77"))),
        "http://example.test/?room-id=",
    );
    assert_eq!(state.room_url, "http://example.test/?room-id=r77");

    deliver_message_to_game(
        &mut world,
        &mut state,
        MessageToGame::PlayerInput(PlayerInput {
            socket_id: 4,
            remote_input: RemoteInput::ConfigurationInput(ConfigurationInput::PlayerId(
                String::from("carol"),
            )),
        }),
        "http://example.test/?room-id=",
    );
    tick(&mut world, &mut state);
    let carol = player_entity(&world, "carol");
    assert_eq!(world.player(carol).as_ref().unwrap().socket_id, 4);
}

#[test]
fn components_need_a_live_entity() {
    let mut world = World::new();
    // no such entity yet
    assert_eq!(
        world.insert_position(0, Position { x: 0, y: 0 }),
        Err(WorldError::MissingEntity)
    );
    let e = world.create_entity();
    assert!(world.insert_position(e, Position { x: 0, y: 0 }).is_ok());
    // a deleted entity refuses components and has none left
    world.delete_entity(e);
    assert!(!world.is_alive(e));
    assert!(world.position(e).is_none());
    assert_eq!(
        world.insert_movement(e, Movement::new()),
        Err(WorldError::MissingEntity)
    );
}
