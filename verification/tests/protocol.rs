//! End-to-end exercises of the message router against a live registry.

use buzzer::game::GameState;
use buzzer::message::{ClientToServer, ServerToClient};
use buzzer::registry::GameRegistry;
use buzzer::router::{handle_c2s_message, handle_disconnect};

fn create(reg: &mut GameRegistry, host: u128) -> usize {
    let out = handle_c2s_message(reg, ClientToServer::CreateGame, host);
    assert_eq!(out.len(), 1);
    assert_eq!(out[0].0, host);
    match &out[0].1 {
        ServerToClient::GameCreated { game_code, player_id, game_state } => {
            assert_eq!(*player_id, host);
            assert_eq!(game_state.host_id, host);
            assert!(!game_state.locked);
            *game_code
        }
        other => panic!("expected GameCreated, got {:?}", other),
    }
}

fn join(
    reg: &mut GameRegistry,
    code: usize,
    id: u128,
    name: &str,
) -> Vec<(u128, ServerToClient)> {
    handle_c2s_message(
        reg,
        ClientToServer::JoinGame { game_code: code, player_name: name.to_string() },
        id,
    )
}

fn error_message(out: &[(u128, ServerToClient)]) -> String {
    assert_eq!(out.len(), 1);
    match &out[0].1 {
        ServerToClient::Error { message } => message.clone(),
        other => panic!("expected Error, got {:?}", other),
    }
}

fn session(reg: &mut GameRegistry, code: usize) -> GameState {
    reg.take(code).expect("session should exist")
}

#[test]
fn created_codes_are_distinct() {
    let mut reg = GameRegistry::new();
    let mut codes: Vec<usize> = Vec::new();
    for host in 0..20u128 {
        let code = create(&mut reg, host);
        assert!((10000..99999).contains(&code));
        assert!(!codes.contains(&code), "code {} reused", code);
        assert!(reg.contains_code(code));
        codes.push(code);
    }
    assert_eq!(reg.session_count(), 20);
}

#[test]
fn join_rejects_empty_name() {
    let mut reg = GameRegistry::new();
    let code = create(&mut reg, 1);
    let out = join(&mut reg, code, 2, "   ");
    assert_eq!(out[0].0, 2);
    assert_eq!(error_message(&out), "Player name cannot be empty.");
    let game = session(&mut reg, code);
    assert_eq!(game.players.len(), 1);
    assert_eq!(game.scores.len(), 0);
    assert_eq!(game.player_join_order, vec![1]);
}

#[test]
fn join_rejects_long_name() {
    let mut reg = GameRegistry::new();
    let code = create(&mut reg, 1);
    let out = join(&mut reg, code, 2, "ThirteenChars");
    assert_eq!(error_message(&out), "Player name is too long.");
    let game = session(&mut reg, code);
    assert_eq!(game.players.len(), 1);
}

#[test]
fn join_accepts_twelve_characters() {
    let mut reg = GameRegistry::new();
    let code = create(&mut reg, 1);
    let out = join(&mut reg, code, 2, "TwelveChars!");
    assert!(matches!(out[0].1, ServerToClient::GameJoined { .. }));
    let game = session(&mut reg, code);
    assert_eq!(game.players.len(), 2);
}

#[test]
fn join_rejects_duplicate_name() {
    let mut reg = GameRegistry::new();
    let code = create(&mut reg, 1);
    join(&mut reg, code, 2, "Ann");
    let out = join(&mut reg, code, 3, "Ann");
    assert_eq!(out[0].0, 3);
    assert_eq!(error_message(&out), "Player name is already taken.");
    let game = session(&mut reg, code);
    assert_eq!(game.players.len(), 2);
    assert_eq!(game.player_join_order, vec![1, 2]);
}

#[test]
fn join_rejects_reserved_host_name() {
    let mut reg = GameRegistry::new();
    let code = create(&mut reg, 1);
    let out = join(&mut reg, code, 2, "HOST");
    assert_eq!(error_message(&out), "Player name is already taken.");
}

#[test]
fn join_rejects_unknown_code() {
    let mut reg = GameRegistry::new();
    let out = join(&mut reg, 12345, 2, "Ann");
    assert_eq!(error_message(&out), "Game not found.");
}

#[test]
fn join_rejects_second_join_by_same_id() {
    let mut reg = GameRegistry::new();
    let code = create(&mut reg, 1);
    join(&mut reg, code, 2, "Ann");
    let out = join(&mut reg, code, 2, "Bea");
    assert_eq!(error_message(&out), "Player is already in the game.");
    let game = session(&mut reg, code);
    assert_eq!(game.players.len(), 2);
}

#[test]
fn join_trims_name_and_replies_then_broadcasts() {
    let mut reg = GameRegistry::new();
    let code = create(&mut reg, 1);
    let out = join(&mut reg, code, 2, "  Ann  ");
    // One targeted reply, then one update per participant (host and Ann).
    assert_eq!(out.len(), 3);
    assert_eq!(out[0].0, 2);
    match &out[0].1 {
        ServerToClient::GameJoined { player_id, player_name, game_state } => {
            assert_eq!(*player_id, 2);
            assert_eq!(player_name, "Ann");
            assert_eq!(game_state.player_join_order, vec![1, 2]);
        }
        other => panic!("expected GameJoined, got {:?}", other),
    }
    assert_eq!(out[1].0, 1);
    assert_eq!(out[2].0, 2);
    assert!(matches!(out[1].1, ServerToClient::GameStateUpdate { .. }));
    assert!(matches!(out[2].1, ServerToClient::GameStateUpdate { .. }));
    let game = session(&mut reg, code);
    assert_eq!(game.players[1].1.name(), "Ann");
    assert_eq!(game.scores, vec![(2, 0)]);
}

#[test]
fn buzz_while_locked_never_mutates() {
    let mut reg = GameRegistry::new();
    let code = create(&mut reg, 1);
    join(&mut reg, code, 2, "Ann");
    let out = handle_c2s_message(&mut reg, ClientToServer::Lock { game_code: code }, 1);
    assert_eq!(out.len(), 2);
    let out = handle_c2s_message(
        &mut reg,
        ClientToServer::Buzz { game_code: code, player_id: 2 },
        2,
    );
    assert!(out.is_empty());
    let game = session(&mut reg, code);
    assert!(game.globally_locked);
    assert!(game.buzzer_order.is_empty());
}

#[test]
fn buzz_twice_keeps_single_entry() {
    let mut reg = GameRegistry::new();
    let code = create(&mut reg, 1);
    join(&mut reg, code, 2, "Ann");
    let first = handle_c2s_message(
        &mut reg,
        ClientToServer::Buzz { game_code: code, player_id: 2 },
        2,
    );
    assert!(!first.is_empty());
    let second = handle_c2s_message(
        &mut reg,
        ClientToServer::Buzz { game_code: code, player_id: 2 },
        2,
    );
    assert!(second.is_empty());
    let game = session(&mut reg, code);
    assert_eq!(game.buzzer_order.len(), 1);
    assert_eq!(game.buzzer_order[0], (2, "Ann".to_string()));
}

#[test]
fn buzz_by_stranger_or_unknown_code_is_dropped() {
    let mut reg = GameRegistry::new();
    let code = create(&mut reg, 1);
    let out = handle_c2s_message(
        &mut reg,
        ClientToServer::Buzz { game_code: code, player_id: 99 },
        99,
    );
    assert!(out.is_empty());
    let out = handle_c2s_message(
        &mut reg,
        ClientToServer::Buzz { game_code: 54321, player_id: 1 },
        1,
    );
    assert!(out.is_empty());
    let game = session(&mut reg, code);
    assert!(game.buzzer_order.is_empty());
}

#[test]
fn clear_authorization() {
    let mut reg = GameRegistry::new();
    let code = create(&mut reg, 1);
    join(&mut reg, code, 2, "Ann");
    handle_c2s_message(&mut reg, ClientToServer::Buzz { game_code: code, player_id: 2 }, 2);
    // A non-host clear is silently dropped and mutates nothing.
    let out = handle_c2s_message(&mut reg, ClientToServer::Clear { game_code: code }, 2);
    assert!(out.is_empty());
    let game = session(&mut reg, code);
    assert_eq!(game.buzzer_order.len(), 1);
    reg.put(code, game);
    // The host's clear always empties the queue and updates everyone.
    let out = handle_c2s_message(&mut reg, ClientToServer::Clear { game_code: code }, 1);
    assert_eq!(out.len(), 2);
    let game = session(&mut reg, code);
    assert!(game.buzzer_order.is_empty());
}

#[test]
fn lock_unlock_authorization() {
    let mut reg = GameRegistry::new();
    let code = create(&mut reg, 1);
    join(&mut reg, code, 2, "Ann");
    let out = handle_c2s_message(&mut reg, ClientToServer::Lock { game_code: code }, 2);
    assert!(out.is_empty());
    let game = session(&mut reg, code);
    assert!(!game.globally_locked);
    reg.put(code, game);
    handle_c2s_message(&mut reg, ClientToServer::Lock { game_code: code }, 1);
    let game = session(&mut reg, code);
    assert!(game.globally_locked);
    reg.put(code, game);
    handle_c2s_message(&mut reg, ClientToServer::Unlock { game_code: code }, 1);
    let game = session(&mut reg, code);
    assert!(!game.globally_locked);
}

#[test]
fn scores_accumulate_with_floor_at_zero() {
    let mut reg = GameRegistry::new();
    let code = create(&mut reg, 1);
    join(&mut reg, code, 2, "Ann");
    // This server clamps scores at zero: +10 then -15 floors to 0.
    handle_c2s_message(
        &mut reg,
        ClientToServer::UpdateScore { game_code: code, player_id: 2, delta: 10 },
        1,
    );
    handle_c2s_message(
        &mut reg,
        ClientToServer::UpdateScore { game_code: code, player_id: 2, delta: -15 },
        1,
    );
    let game = session(&mut reg, code);
    assert_eq!(game.scores, vec![(2, 0)]);
}

#[test]
fn scores_accumulate_without_clamp_above_zero() {
    let mut reg = GameRegistry::new();
    let code = create(&mut reg, 1);
    join(&mut reg, code, 2, "Ann");
    handle_c2s_message(
        &mut reg,
        ClientToServer::UpdateScore { game_code: code, player_id: 2, delta: 10 },
        1,
    );
    handle_c2s_message(
        &mut reg,
        ClientToServer::UpdateScore { game_code: code, player_id: 2, delta: -5 },
        1,
    );
    let game = session(&mut reg, code);
    assert_eq!(game.scores, vec![(2, 5)]);
}

#[test]
fn score_update_by_non_host_is_dropped() {
    let mut reg = GameRegistry::new();
    let code = create(&mut reg, 1);
    join(&mut reg, code, 2, "Ann");
    let out = handle_c2s_message(
        &mut reg,
        ClientToServer::UpdateScore { game_code: code, player_id: 2, delta: 10 },
        2,
    );
    assert!(out.is_empty());
    let game = session(&mut reg, code);
    assert_eq!(game.scores, vec![(2, 0)]);
}

#[test]
fn score_update_creates_missing_entry() {
    let mut reg = GameRegistry::new();
    let code = create(&mut reg, 1);
    // The host may credit any id, even one without a score entry yet.
    handle_c2s_message(
        &mut reg,
        ClientToServer::UpdateScore { game_code: code, player_id: 7, delta: 3 },
        1,
    );
    let game = session(&mut reg, code);
    assert_eq!(game.scores, vec![(7, 3)]);
}

#[test]
fn disconnect_non_host_removes_exactly_that_player() {
    let mut reg = GameRegistry::new();
    let code = create(&mut reg, 1);
    join(&mut reg, code, 2, "Ann");
    join(&mut reg, code, 3, "Bob");
    let out = handle_disconnect(&mut reg, 2);
    // Exactly one broadcast to each remaining participant.
    assert_eq!(out.len(), 2);
    assert_eq!(out[0].0, 1);
    assert_eq!(out[1].0, 3);
    assert!(matches!(out[0].1, ServerToClient::GameStateUpdate { .. }));
    assert!(matches!(out[1].1, ServerToClient::GameStateUpdate { .. }));
    let game = session(&mut reg, code);
    assert_eq!(game.player_join_order, vec![1, 3]);
    assert_eq!(game.players.len(), 2);
    assert!(game.players.iter().all(|(id, _)| *id != 2));
    assert_eq!(game.scores, vec![(3, 0)]);
}

#[test]
fn disconnect_host_removes_session() {
    let mut reg = GameRegistry::new();
    let code = create(&mut reg, 1);
    join(&mut reg, code, 2, "Ann");
    let out = handle_disconnect(&mut reg, 1);
    assert!(out.is_empty());
    assert!(!reg.contains_code(code));
    assert!(reg.take(code).is_none());
    assert_eq!(reg.session_count(), 0);
}

#[test]
fn disconnect_stranger_is_noop() {
    let mut reg = GameRegistry::new();
    let code = create(&mut reg, 1);
    let out = handle_disconnect(&mut reg, 42);
    assert!(out.is_empty());
    assert!(reg.contains_code(code));
}

#[test]
fn end_to_end_session() {
    let mut reg = GameRegistry::new();
    // Host creates a session with code C.
    let code = create(&mut reg, 10);
    // "Ann" joins C.
    let out = join(&mut reg, code, 20, "Ann");
    assert!(matches!(out[0].1, ServerToClient::GameJoined { .. }));
    let game = session(&mut reg, code);
    assert_eq!(game.player_join_order, vec![10, 20]);
    assert_eq!(game.scores, vec![(20, 0)]);
    reg.put(code, game);
    // Ann buzzes while unlocked: queue records her, the host is told.
    let out = handle_c2s_message(
        &mut reg,
        ClientToServer::Buzz { game_code: code, player_id: 20 },
        20,
    );
    assert_eq!(out[0].0, 10);
    match &out[0].1 {
        ServerToClient::PlayerBuzzed { player_id, player_name } => {
            assert_eq!(*player_id, 20);
            assert_eq!(player_name, "Ann");
        }
        other => panic!("expected PlayerBuzzed, got {:?}", other),
    }
    let game = session(&mut reg, code);
    assert_eq!(game.buzzer_order.len(), 1);
    assert_eq!(game.buzzer_order[0], (20, "Ann".to_string()));
    reg.put(code, game);
    // Host clears: the queue empties.
    handle_c2s_message(&mut reg, ClientToServer::Clear { game_code: code }, 10);
    let game = session(&mut reg, code);
    assert!(game.buzzer_order.is_empty());
}
