//! Unit-level exercises of the session state, its snapshot, and the
//! arithmetic the score rules rest on.

use buzzer::actor::Actor;
use buzzer::apply_delta;
use buzzer::game::{GameState, JoinRejection};
use buzzer::registry::{generate_game_code, GameRegistry};
use buzzer::router::broadcast_state_update;
use buzzer::message::ServerToClient;

#[test]
fn actor_name_and_id() {
    let host = Actor::Host { id: 5 };
    assert_eq!(host.name(), "HOST");
    assert_eq!(host.id(), 5);
    let player = Actor::Player { id: 9, name: "Ann".to_string() };
    assert_eq!(player.name(), "Ann");
    assert_eq!(player.id(), 9);
}

#[test]
fn apply_delta_exact_values() {
    assert_eq!(apply_delta(0, 10), 10);
    assert_eq!(apply_delta(10, -15), 0);
    assert_eq!(apply_delta(5, -5), 0);
    assert_eq!(apply_delta(3, 4), 7);
    assert_eq!(apply_delta(i32::MAX, 5), i32::MAX);
    assert_eq!(apply_delta(0, i32::MIN), 0);
}

#[test]
fn new_game_holds_only_the_host() {
    let g = GameState::new_game(3);
    assert_eq!(g.host_id, 3);
    assert!(!g.globally_locked);
    assert!(g.buzzer_order.is_empty());
    assert_eq!(g.players.len(), 1);
    assert_eq!(g.players[0].0, 3);
    assert_eq!(g.players[0].1.name(), "HOST");
    assert!(g.scores.is_empty());
    assert_eq!(g.player_join_order, vec![3]);
}

#[test]
fn join_outcomes_on_bare_state() {
    let mut g = GameState::new_game(1);
    assert_eq!(g.join(2, "Ann".to_string()), Ok(()));
    assert_eq!(g.join(2, "Bea".to_string()), Err(JoinRejection::AlreadyInGame));
    assert_eq!(g.join(3, "Ann".to_string()), Err(JoinRejection::NameTaken));
    assert_eq!(g.players.len(), 2);
    assert_eq!(g.scores, vec![(2, 0)]);
    assert_eq!(g.player_join_order, vec![1, 2]);
}

#[test]
fn buzz_resolves_the_registered_name() {
    let mut g = GameState::new_game(1);
    g.join(2, "Ann".to_string()).unwrap();
    assert_eq!(g.buzz(2), Some("Ann".to_string()));
    assert_eq!(g.buzz(2), None);
    assert_eq!(g.buzz(42), None);
    assert_eq!(g.buzzer_order.len(), 1);
    assert_eq!(g.buzzer_order[0], (2, "Ann".to_string()));
}

#[test]
fn snapshot_mirrors_the_state() {
    let mut g = GameState::new_game(1);
    g.join(2, "Ann".to_string()).unwrap();
    assert_eq!(g.buzz(2), Some("Ann".to_string()));
    assert!(g.update_score(1, 2, 30));
    let j = g.to_json();
    assert_eq!(j.host_id, g.host_id);
    assert_eq!(j.locked, g.globally_locked);
    assert_eq!(j.buzzer_order, g.buzzer_order);
    assert_eq!(j.scores, g.scores);
    assert_eq!(j.player_join_order, g.player_join_order);
    assert_eq!(j.players.len(), g.players.len());
    // And the snapshot converts back to an equivalent state.
    let back = GameState::from(j);
    assert_eq!(back.host_id, g.host_id);
    assert_eq!(back.globally_locked, g.globally_locked);
    assert_eq!(back.buzzer_order, g.buzzer_order);
    assert_eq!(back.scores, g.scores);
    assert_eq!(back.player_join_order, g.player_join_order);
}

#[test]
fn broadcast_reaches_every_participant_in_join_order() {
    let mut g = GameState::new_game(1);
    g.join(2, "Ann".to_string()).unwrap();
    g.join(3, "Bob".to_string()).unwrap();
    let out = broadcast_state_update(&g);
    let recipients: Vec<u128> = out.iter().map(|(to, _)| *to).collect();
    assert_eq!(recipients, vec![1, 2, 3]);
    for (_, event) in &out {
        match event {
            ServerToClient::GameStateUpdate { game_state } => {
                assert_eq!(game_state.player_join_order, vec![1, 2, 3]);
            }
            other => panic!("expected GameStateUpdate, got {:?}", other),
        }
    }
}

#[test]
fn remove_participant_touches_only_that_id() {
    let mut g = GameState::new_game(1);
    g.join(2, "Ann".to_string()).unwrap();
    g.join(3, "Bob".to_string()).unwrap();
    assert!(g.buzz(2).is_some());
    assert!(g.remove_participant(2));
    assert!(!g.remove_participant(2));
    assert_eq!(g.player_join_order, vec![1, 3]);
    assert_eq!(g.scores, vec![(3, 0)]);
    // The buzz queue is not rewritten on disconnect.
    assert_eq!(g.buzzer_order.len(), 1);
}

#[test]
fn generated_codes_are_five_digit_and_free() {
    let mut reg = GameRegistry::new();
    for _ in 0..10 {
        let code = generate_game_code(&reg);
        assert!((10000..99999).contains(&code));
        assert!(!reg.contains_code(code));
        reg.put(code, GameState::new_game(1));
        assert!(reg.contains_code(code));
    }
    assert_eq!(reg.session_count(), 10);
}

#[test]
fn set_locked_is_host_only() {
    let mut g = GameState::new_game(1);
    assert!(!g.set_locked(2, true));
    assert!(!g.globally_locked);
    assert!(g.set_locked(1, true));
    assert!(g.globally_locked);
    assert!(g.set_locked(1, false));
    assert!(!g.globally_locked);
}
