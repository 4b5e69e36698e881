use tank_arena::configuration::{ApplicationSettings, DatabaseSettings, Log, LogLevel, Settings};
use tank_arena::error::ErrorKind;
use tank_arena::game::MessageToGame;
use tank_arena::games_api::{generate_id, RegistryError, RelayState, RoomRegistry, SdpMessage};
use tank_arena::password::{hash_is_correct, hash_password};
use tank_arena::players_connector::PlayersConnector;
use tank_arena::result::{ErrorKind as ServerErrorKind, ServerResult};
use tank_arena::route::{
    create_user_decision, is_email_available, is_name_available, login_decision,
    post_sdp_session, sdp_response, strip_quotes, CreateUser, Credentials,
};
use tank_arena::server_communicator::{
    dispatch_server_message, DispatchedServerMessage, MessageToServer, ServerMessage,
    SdpMessage as GameSdpMessage,
};
use tank_arena::signal::{decode, encode};

#[test]
fn offer_to_unknown_room_is_not_found() {
    let mut registry = RoomRegistry::new();
    let r = registry.route_offer(&String::from("missing"), String::from("offer"), 1);
    assert_eq!(r, Err(RegistryError::RoomNotFound));
    // and through the posted route, without blocking
    let r2 = post_sdp_session(&mut registry, &String::from("missing"), "\"offer\"", 2);
    assert_eq!(r2, Err(RegistryError::RoomNotFound));
}

#[test]
fn rooms_queue_offers_in_order() {
    let mut registry = RoomRegistry::new();
    registry.register(String::from("room-a")).unwrap();
    registry.register(String::from("room-b")).unwrap();
    assert_eq!(
        registry.register(String::from("room-a")),
        Err(RegistryError::IdTaken)
    );

    registry
        .route_offer(&String::from("room-a"), String::from("first"), 10)
        .unwrap();
    registry
        .route_offer(&String::from("room-a"), String::from("second"), 11)
        .unwrap();
    assert_eq!(
        registry.take_next_offer(&String::from("room-a")),
        Some((String::from("first"), 10))
    );
    assert_eq!(
        registry.take_next_offer(&String::from("room-a")),
        Some((String::from("second"), 11))
    );
    assert_eq!(registry.take_next_offer(&String::from("room-a")), None);
    assert_eq!(registry.take_next_offer(&String::from("room-b")), None);

    registry.deregister(&String::from("room-a"));
    assert_eq!(
        registry.route_offer(&String::from("room-a"), String::from("late"), 12),
        Err(RegistryError::RoomNotFound)
    );
}

#[test]
fn relay_correlates_answers_by_request_id() {
    let mut relay = RelayState::new();
    let m0 = relay.queue_offer(String::from("offer-0"), 100);
    let m1 = relay.queue_offer(String::from("offer-1"), 101);
    assert_eq!(m0.id, 0);
    assert_eq!(m0.data, "offer-0");
    assert_eq!(m1.id, 1);

    let a = relay.take_answer(SdpMessage { data: String::from("answer-1"), id: 1 });
    assert_eq!(a, Some((101, String::from("answer-1"))));
    // the correlation is gone once matched
    let again = relay.take_answer(SdpMessage { data: String::from("answer-1"), id: 1 });
    assert_eq!(again, None);
    let unknown = relay.take_answer(SdpMessage { data: String::from("x"), id: 9 });
    assert_eq!(unknown, None);
    let a0 = relay.take_answer(SdpMessage { data: String::from("answer-0"), id: 0 });
    assert_eq!(a0, Some((100, String::from("answer-0"))));
}

#[test]
fn generated_ids_are_long_and_fresh() {
    let a = generate_id();
    let b = generate_id();
    assert_eq!(a.len(), 22);
    assert_eq!(b.len(), 22);
    assert_ne!(a, b);
}

#[test]
fn base64_round_trip() {
    assert_eq!(encode("hi"), "aGk=");
    assert_eq!(encode("a").len(), 4);
    let payload = "v=0 o=- 4611731400430051336 2 IN IP4 127.0.0.1";
    let decoded = decode(&encode(payload)).expect("round trip succeeds");
    assert_eq!(decoded, payload);
    let err = decode("!!!not base64!!!").expect_err("garbage is rejected");
    assert_eq!(err.kind(), ErrorKind::DecodeError);
}

#[test]
fn connector_hands_out_socket_ids_and_wraps_answers() {
    let mut connector = PlayersConnector::new();
    let (s0, m0) = connector.accept_offer(7, "answer-sdp");
    let (s1, _m1) = connector.accept_offer(8, "other");
    assert_eq!(s0, 0);
    assert_eq!(s1, 1);
    let MessageToServer::SdpAnswer(m) = m0;
    assert_eq!(m.id, 7);
    assert_eq!(m.data, encode("answer-sdp"));
    assert_eq!(m.data, "YW5zd2VyLXNkcA==");
}

#[test]
fn server_messages_route_by_variant() {
    let to_game = dispatch_server_message(ServerMessage::RoomId(String::from("r1")));
    match to_game {
        DispatchedServerMessage::ToGame(MessageToGame::RoomId(room)) => {
            assert_eq!(room.0, "r1");
        },
        _ => panic!("a room id goes to the game"),
    }
    let to_connector = dispatch_server_message(ServerMessage::SdpOffer(GameSdpMessage {
        id: 3,
        data: String::from("offer"),
    }));
    match to_connector {
        DispatchedServerMessage::ToPlayersConnector(m) => {
            assert_eq!(m.id, 3);
            assert_eq!(m.data, "offer");
        },
        _ => panic!("an offer goes to the players connector"),
    }
}

#[test]
fn posted_bodies_lose_their_quotes() {
    assert_eq!(strip_quotes("\"abc\""), Some(String::from("abc")));
    assert_eq!(strip_quotes("a\"b\"c"), Some(String::from("abc")));
    assert_eq!(strip_quotes("plain"), Some(String::from("plain")));

    let mut registry = RoomRegistry::new();
    registry.register(String::from("room")).unwrap();
    post_sdp_session(&mut registry, &String::from("room"), "\"the-offer\"", 5).unwrap();
    assert_eq!(
        registry.take_next_offer(&String::from("room")),
        Some((String::from("the-offer"), 5))
    );
}

#[test]
fn sdp_responses_carry_status_and_json() {
    let (ok, body) = sdp_response(Some(String::from("the-answer")));
    assert_eq!(ok, 200);
    assert_eq!(body, "\"the-answer\"");
    let (broken, message) = sdp_response(None);
    assert_eq!(broken, 500);
    assert_eq!(message, "problem with channel");
}

#[test]
fn connection_strings_are_exact() {
    let db = DatabaseSettings {
        host: String::from("localhost"),
        port: 5432,
        name: String::from("arena"),
    };
    assert_eq!(db.get_connection_string(), "localhost:5432/arena");

    let app = ApplicationSettings {
        host: String::from("0.0.0.0"),
        web_port: 8080,
        games_port: 5000,
    };
    assert_eq!(app.get_web_path(), "0.0.0.0:8080");
    assert_eq!(app.get_game_path(), "0.0.0.0:5000");

    let small = ApplicationSettings {
        host: String::from("h"),
        web_port: 0,
        games_port: 65535,
    };
    assert_eq!(small.get_web_path(), "h:0");
    assert_eq!(small.get_game_path(), "h:65535");
}

#[test]
fn log_levels_parse_or_default() {
    let settings = |level: Option<&str>, with_log: bool| Settings {
        database: DatabaseSettings {
            host: String::from("h"),
            port: 1,
            name: String::from("n"),
        },
        application: ApplicationSettings {
            host: String::from("h"),
            web_port: 1,
            games_port: 2,
        },
        log: if with_log {
            Some(Log { level: level.map(String::from) })
        } else {
            None
        },
    };
    assert_eq!(settings(None, false).get_log_level().unwrap(), LogLevel::Info);
    assert_eq!(settings(None, true).get_log_level().unwrap(), LogLevel::Info);
    assert_eq!(settings(Some("trace"), true).get_log_level().unwrap(), LogLevel::Trace);
    assert_eq!(settings(Some("debug"), true).get_log_level().unwrap(), LogLevel::Debug);
    assert_eq!(settings(Some("warn"), true).get_log_level().unwrap(), LogLevel::Warn);
    assert_eq!(settings(Some("error"), true).get_log_level().unwrap(), LogLevel::Error);
    let bad = settings(Some("shout"), true).get_log_level();
    assert!(bad.is_err());
    assert_eq!(
        bad.unwrap_err().kind(),
        ServerErrorKind::ConfigurationError
    );
}

#[test]
fn password_hash_round_trip() {
    let hash = hash_password(String::from("hunter2")).expect("hashing succeeds");
    assert!(hash.starts_with("$argon2id$"));
    assert!(hash_is_correct(hash.clone(), String::from("hunter2")));
    assert!(!hash_is_correct(hash.clone(), String::from("hunter3")));
    assert!(!hash_is_correct(String::from("not a phc string"), String::from("hunter2")));
}

#[test]
fn login_decisions() {
    let creds = |pw: &str| Credentials {
        email: String::from("a@example.test"),
        password: String::from(pw),
    };
    let hash = hash_password(String::from("pw")).expect("hashing succeeds");
    assert_eq!(login_decision(false, String::new(), creds("pw")), 404);
    assert_eq!(login_decision(true, hash.clone(), creds("pw")), 200);
    assert_eq!(login_decision(true, hash, creds("wrong")), 401);
}

#[test]
fn registration_decisions() {
    let payload = |name: &str, email: &str, pw: &str| CreateUser {
        email: String::from(email),
        name: String::from(name),
        password: String::from(pw),
    };
    let (taken, none) = create_user_decision(true, false, payload("n", "e", "p"));
    assert_eq!(taken, 403);
    assert!(none.is_none());

    let (email_taken, none2) = create_user_decision(false, true, payload("n", "e", "p"));
    assert_eq!(email_taken, 403);
    assert!(none2.is_none());

    let (created, account) =
        create_user_decision(false, false, payload("zed", "zed@example.test", "secret"));
    assert_eq!(created, 201);
    let account = account.expect("an account row comes back");
    assert_eq!(account.name, "zed");
    assert_eq!(account.email, "zed@example.test");
    assert!(hash_is_correct(account.password_hash, String::from("secret")));

    assert_eq!(is_name_available(true), 406);
    assert_eq!(is_name_available(false), 200);
    assert_eq!(is_email_available(true), 406);
    assert_eq!(is_email_available(false), 200);
}

#[test]
fn server_results_wrap_and_explain() {
    let ok: ServerResult<u32> = ServerResult::wrap(Ok(5), ServerErrorKind::NetworkError);
    assert!(matches!(ok, ServerResult::Done(5)));

    let failed: ServerResult<u32> = ServerResult::wrap(
        Err(String::from("refused")),
        ServerErrorKind::NetworkError,
    );
    let explained = failed.explain_error(String::from("while dialing"));
    match explained {
        ServerResult::Failed(e) => {
            assert_eq!(e.kind(), ServerErrorKind::NetworkError);
            assert_eq!(
                e.description(),
                &vec![String::from("refused"), String::from("while dialing")]
            );
        },
        ServerResult::Done(_) => panic!("a wrapped error stays an error"),
    }
}

#[test]
fn rooms_open_with_fresh_ids() {
    let mut registry = RoomRegistry::new();
    let (id, hello) = tank_arena::games_api::open_room(&mut registry)
        .expect("a fresh id registers");
    assert_eq!(id.len(), 22);
    match hello {
        tank_arena::games_api::GameMessage::RoomId(announced) => assert_eq!(announced, id),
        _ => panic!("the first message announces the room id"),
    }
    // the opened room accepts offers
    registry.route_offer(&id, String::from("offer"), 1).unwrap();
}

#[test]
fn relay_drains_the_room_queue_in_order() {
    let mut registry = RoomRegistry::new();
    let mut relay = RelayState::new();
    let (id, _) = tank_arena::games_api::open_room(&mut registry).expect("room opens");
    assert!(
        tank_arena::games_api::next_offer_message(&mut registry, &mut relay, &id).is_none()
    );
    registry.route_offer(&id, String::from("first"), 7).unwrap();
    registry.route_offer(&id, String::from("second"), 8).unwrap();
    let m0 = tank_arena::games_api::next_offer_message(&mut registry, &mut relay, &id)
        .expect("an offer waits");
    assert_eq!(m0.id, 0);
    assert_eq!(m0.data, "first");
    let m1 = tank_arena::games_api::next_offer_message(&mut registry, &mut relay, &id)
        .expect("another offer waits");
    assert_eq!(m1.id, 1);
    assert_eq!(m1.data, "second");
    // the answers find their tickets back
    assert_eq!(
        relay.take_answer(SdpMessage { data: String::from("a1"), id: 1 }),
        Some((8, String::from("a1")))
    );
    assert_eq!(
        relay.take_answer(SdpMessage { data: String::from("a0"), id: 0 }),
        Some((7, String::from("a0")))
    );
}
