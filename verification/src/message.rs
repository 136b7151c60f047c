//! The per-connection message protocol: typed events from client to server
//! and from server to client, with their mathematical views.

use vstd::prelude::*;

use crate::actor::ActorModel;
use crate::game::{GameModel, GameStateJson};

verus! {

/// Events a client may send; each names the session it addresses by code.
#[derive(Debug)]
pub enum ClientToServer {
    /// Open a new session with the sender as host.
    CreateGame,
    /// Join an existing session under a display name.
    JoinGame { game_code: usize, player_name: String },
    /// Signal first-to-answer.
    Buzz { game_code: usize, player_id: u128 },
    /// Stop accepting buzzes (host only).
    Lock { game_code: usize },
    /// Accept buzzes again (host only).
    Unlock { game_code: usize },
    /// Empty the buzz queue (host only).
    Clear { game_code: usize },
    /// Apply a delta to one player's score (host only).
    UpdateScore { game_code: usize, player_id: u128, delta: i32 },
}

/// Events the server sends back to clients.
#[derive(Debug)]
pub enum ServerToClient {
    /// Reply to the creator only: the new session's code and snapshot.
    GameCreated { game_code: usize, player_id: u128, game_state: GameStateJson },
    /// Reply to the joiner only: their id, accepted name, and the snapshot.
    GameJoined { player_id: u128, player_name: String, game_state: GameStateJson },
    /// Broadcast to every participant after each accepted mutation.
    GameStateUpdate { game_state: GameStateJson },
    /// Reply to the offending connection only; the state is unchanged.
    Error { message: String },
    /// Delivered to the host only when a buzz is accepted.
    PlayerBuzzed { player_id: u128, player_name: String },
}

/// Mathematical view of a [`ServerToClient`] event.
#[verifier::ext_equal]
pub enum ServerMsgModel {
    GameCreated { game_code: usize, player_id: u128, game_state: GameModel },
    GameJoined { player_id: u128, player_name: Seq<char>, game_state: GameModel },
    GameStateUpdate { game_state: GameModel },
    Error { message: Seq<char> },
    PlayerBuzzed { player_id: u128, player_name: Seq<char> },
}

impl View for ServerToClient {
    type V = ServerMsgModel;

    open spec fn view(&self) -> ServerMsgModel {
        match self {
            ServerToClient::GameCreated { game_code, player_id, game_state } => ServerMsgModel::GameCreated {
                game_code: *game_code,
                player_id: *player_id,
                game_state: game_state@,
            },
            ServerToClient::GameJoined { player_id, player_name, game_state } => ServerMsgModel::GameJoined {
                player_id: *player_id,
                player_name: player_name@,
                game_state: game_state@,
            },
            ServerToClient::GameStateUpdate { game_state } => ServerMsgModel::GameStateUpdate {
                game_state: game_state@,
            },
            ServerToClient::Error { message } => ServerMsgModel::Error { message: message@ },
            ServerToClient::PlayerBuzzed { player_id, player_name } => ServerMsgModel::PlayerBuzzed {
                player_id: *player_id,
                player_name: player_name@,
            },
        }
    }
}

/// The view of a batch of outbound sends: each `(recipient, event)` pair
/// with the event abstracted to its model.
pub open spec fn sends_view(s: Seq<(u128, ServerToClient)>) -> Seq<(u128, ServerMsgModel)> {
    s.map_values(|p: (u128, ServerToClient)| (p.0, p.1@))
}

/// One targeted reply.
pub open spec fn single_send(to: u128, m: ServerMsgModel) -> Seq<(u128, ServerMsgModel)> {
    seq![(to, m)]
}

/// The snapshot fan-out owed after a mutation of `g`: one state update per
/// participant, in join order.
pub open spec fn broadcast_msgs(g: GameModel) -> Seq<(u128, ServerMsgModel)> {
    g.players.map_values(
        |p: (u128, ActorModel)| (p.0, ServerMsgModel::GameStateUpdate { game_state: g }),
    )
}

} // verus!
