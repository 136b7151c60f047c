//! The message router: validates and dispatches each inbound client event
//! against the session registry, producing state mutations and the batch
//! of outbound messages owed for the event.
//!
//! The router computes; it does not send.  Each handler returns the list
//! of `(recipient, event)` pairs that the transport must deliver, in
//! order, after the mutation they report.

use vstd::prelude::*;
use vstd::string::StrSliceExecFns;

use crate::game::{GameModel, GameState, JoinRejection};
use crate::message::{
    ClientToServer, ServerMsgModel, ServerToClient, broadcast_msgs, sends_view, single_send,
};
use crate::registry::GameRegistry;

verus! {

/// What `str::trim` leaves of a sequence of characters.
pub uninterp spec fn trimmed(s: Seq<char>) -> Seq<char>;

/// Relies on `str::trim`: the input with leading and trailing whitespace
/// removed, a function of the characters alone, never longer than the
/// input, and empty for an empty input.
#[verifier::external_body]
fn trim_name(s: &String) -> (r: String)
    ensures
        r@ == trimmed(s@),
        r@.len() <= s@.len(),
        s@.len() == 0 ==> r@.len() == 0,
{
    s.trim().to_owned()
}

/// The display name bound: a trimmed name of 1 to this many characters is
/// accepted.
pub open spec fn max_name_len() -> int {
    12
}

/// Build the snapshot fan-out for the current state of `game`: one
/// `GameStateUpdate` per participant, in join order.
pub fn broadcast_state_update(game: &GameState) -> (out: Vec<(u128, ServerToClient)>)
    ensures
        sends_view(out@) == broadcast_msgs(game@),
{
    let mut out: Vec<(u128, ServerToClient)> = Vec::new();
    let mut i: usize = 0;
    while i < game.players.len()
        invariant
            i <= game.players@.len(),
            out@.len() == i,
            forall|k: int|
                0 <= k < i ==> (#[trigger] out@[k]).0 == game.players@[k].0 && out@[k].1@
                    == (ServerMsgModel::GameStateUpdate { game_state: game@ }),
        decreases game.players@.len() - i,
    {
        let id = game.players[i].0;
        let snapshot = game.to_json();
        out.push((id, ServerToClient::GameStateUpdate { game_state: snapshot }));
        i += 1;
    }
    proof {
        assert(sends_view(out@) =~= broadcast_msgs(game@));
    }
    out
}

/// One `Error` reply, addressed to the offending connection only.
fn single_error(to: u128, message: String) -> (out: Vec<(u128, ServerToClient)>)
    ensures
        sends_view(out@) == single_send(to, ServerMsgModel::Error { message: message@ }),
{
    let ghost m = message@;
    let mut out: Vec<(u128, ServerToClient)> = Vec::new();
    out.push((to, ServerToClient::Error { message }));
    proof {
        assert(sends_view(out@) =~= single_send(to, ServerMsgModel::Error { message: m }));
    }
    out
}

/// The outcome owed for `CreateGame`: some fresh five-digit code now names
/// a fresh session hosted by the sender, every other session is untouched,
/// and the sender alone is told the code and the initial snapshot.
pub open spec fn create_outcome(
    r0: Map<usize, GameState>,
    r1: Map<usize, GameState>,
    out: Seq<(u128, ServerMsgModel)>,
    sender: u128,
) -> bool {
    &&& out.len() == 1
    &&& out[0].0 == sender
    &&& (out[0].1 matches ServerMsgModel::GameCreated { game_code, player_id, game_state } && {
        &&& player_id == sender
        &&& game_state == GameModel::init(sender)
        &&& 10000 <= game_code < 99999
        &&& !r0.contains_key(game_code)
        &&& r1.contains_key(game_code)
        &&& r1 == r0.insert(game_code, r1[game_code])
        &&& r1[game_code]@ == GameModel::init(sender)
    })
}

/// The outcome owed for `JoinGame`: a trimmed name outside 1 to 12
/// characters, an unknown code, a sender already in the session, or a name
/// already carried each yield one `Error` reply to the sender and no
/// mutation; otherwise the player is joined, the sender is told their id,
/// accepted name and the new snapshot, and the whole session is updated.
pub open spec fn join_outcome(
    r0: Map<usize, GameState>,
    r1: Map<usize, GameState>,
    out: Seq<(u128, ServerMsgModel)>,
    game_code: usize,
    raw_name: Seq<char>,
    sender: u128,
) -> bool {
    let t = trimmed(raw_name);
    if t.len() == 0 {
        r1 == r0 && out == single_send(
            sender,
            ServerMsgModel::Error { message: "Player name cannot be empty."@ },
        )
    } else if t.len() > max_name_len() {
        r1 == r0 && out == single_send(
            sender,
            ServerMsgModel::Error { message: "Player name is too long."@ },
        )
    } else if !r0.contains_key(game_code) {
        r1 == r0 && out == single_send(
            sender,
            ServerMsgModel::Error { message: "Game not found."@ },
        )
    } else {
        let g = r0[game_code]@;
        if g.has_player(sender) {
            r1 == r0 && out == single_send(
                sender,
                ServerMsgModel::Error { message: "Player is already in the game."@ },
            )
        } else if g.name_taken(t) {
            r1 == r0 && out == single_send(
                sender,
                ServerMsgModel::Error { message: "Player name is already taken."@ },
            )
        } else {
            let g2 = g.with_joined(sender, t);
            &&& r1.contains_key(game_code)
            &&& r1[game_code]@ == g2
            &&& r1 == r0.insert(game_code, r1[game_code])
            &&& out == single_send(
                sender,
                ServerMsgModel::GameJoined {
                    player_id: sender,
                    player_name: t,
                    game_state: g2,
                },
            ) + broadcast_msgs(g2)
        }
    }
}

/// The outcome owed for `Buzz`: an unknown session, a locked session, an
/// unregistered player, or a player already in the queue leaves every
/// session untouched and sends nothing; otherwise the buzz is appended,
/// the host alone is told who buzzed, and the whole session is updated.
pub open spec fn buzz_outcome(
    r0: Map<usize, GameState>,
    r1: Map<usize, GameState>,
    out: Seq<(u128, ServerMsgModel)>,
    game_code: usize,
    player_id: u128,
) -> bool {
    if !r0.contains_key(game_code) {
        r1 == r0 && out == Seq::<(u128, ServerMsgModel)>::empty()
    } else {
        let g = r0[game_code]@;
        let g2 = g.after_buzz(player_id);
        &&& r1.contains_key(game_code)
        &&& r1[game_code]@ == g2
        &&& r1 == r0.insert(game_code, r1[game_code])
        &&& if g.accepts_buzz(player_id) {
            out == single_send(
                g.host_id,
                ServerMsgModel::PlayerBuzzed { player_id, player_name: g.name_of(player_id) },
            ) + broadcast_msgs(g2)
        } else {
            r1 == r0 && out == Seq::<(u128, ServerMsgModel)>::empty()
        }
    }
}

/// The outcome owed for `Lock` and `Unlock`: only the host flips the lock
/// flag, and then the whole session is updated; an unknown session or any
/// other sender is silently dropped.
pub open spec fn lock_outcome(
    r0: Map<usize, GameState>,
    r1: Map<usize, GameState>,
    out: Seq<(u128, ServerMsgModel)>,
    game_code: usize,
    sender: u128,
    locked: bool,
) -> bool {
    if !r0.contains_key(game_code) {
        r1 == r0 && out == Seq::<(u128, ServerMsgModel)>::empty()
    } else {
        let g = r0[game_code]@;
        if g.host_id == sender {
            let g2 = g.with_locked(locked);
            &&& r1.contains_key(game_code)
            &&& r1[game_code]@ == g2
            &&& r1 == r0.insert(game_code, r1[game_code])
            &&& out == broadcast_msgs(g2)
        } else {
            r1 == r0 && out == Seq::<(u128, ServerMsgModel)>::empty()
        }
    }
}

/// The outcome owed for `Clear`: only the host empties the buzz queue, and
/// then the whole session is updated; an unknown session or any other
/// sender is silently dropped.
pub open spec fn clear_outcome(
    r0: Map<usize, GameState>,
    r1: Map<usize, GameState>,
    out: Seq<(u128, ServerMsgModel)>,
    game_code: usize,
    sender: u128,
) -> bool {
    if !r0.contains_key(game_code) {
        r1 == r0 && out == Seq::<(u128, ServerMsgModel)>::empty()
    } else {
        let g = r0[game_code]@;
        if g.host_id == sender {
            let g2 = g.with_cleared();
            &&& r1.contains_key(game_code)
            &&& r1[game_code]@ == g2
            &&& r1 == r0.insert(game_code, r1[game_code])
            &&& out == broadcast_msgs(g2)
        } else {
            r1 == r0 && out == Seq::<(u128, ServerMsgModel)>::empty()
        }
    }
}

/// The outcome owed for `UpdateScore`: only the host applies the delta,
/// clamped to `0..=i32::MAX`, creating the entry from zero when absent,
/// and then the whole session is updated; an unknown session or any other
/// sender is silently dropped.
pub open spec fn score_outcome(
    r0: Map<usize, GameState>,
    r1: Map<usize, GameState>,
    out: Seq<(u128, ServerMsgModel)>,
    game_code: usize,
    player_id: u128,
    delta: i32,
    sender: u128,
) -> bool {
    if !r0.contains_key(game_code) {
        r1 == r0 && out == Seq::<(u128, ServerMsgModel)>::empty()
    } else {
        let g = r0[game_code]@;
        if g.host_id == sender {
            let g2 = g.with_score(player_id, delta);
            &&& r1.contains_key(game_code)
            &&& r1[game_code]@ == g2
            &&& r1 == r0.insert(game_code, r1[game_code])
            &&& out == broadcast_msgs(g2)
        } else {
            r1 == r0 && out == Seq::<(u128, ServerMsgModel)>::empty()
        }
    }
}

/// Open a new session with the sender as host.
fn handle_create(registry: &mut GameRegistry, sender_id: u128) -> (out: Vec<
    (u128, ServerToClient),
>)
    requires
        old(registry).wf(),
        old(registry).active_sessions() < 89999,
    ensures
        final(registry).wf(),
        final(registry).active_sessions() == old(registry).active_sessions() + 1,
        create_outcome(old(registry)@, final(registry)@, sends_view(out@), sender_id),
{
    let code = crate::registry::generate_game_code(registry);
    let game = GameState::new_game(sender_id);
    let snapshot = game.to_json();
    registry.put(code, game);
    let mut out: Vec<(u128, ServerToClient)> = Vec::new();
    out.push(
        (
            sender_id,
            ServerToClient::GameCreated { game_code: code, player_id: sender_id, game_state: snapshot },
        ),
    );
    proof {
        assert(sends_view(out@) =~= single_send(
            sender_id,
            ServerMsgModel::GameCreated {
                game_code: code,
                player_id: sender_id,
                game_state: GameModel::init(sender_id),
            },
        ));
        assert(registry@.contains_key(code));
        assert(registry@ =~= old(registry)@.insert(code, registry@[code]));
    }
    out
}

/// Join the sender to the session named by `game_code` under a display
/// name, after trimming and validation.
fn handle_join(
    registry: &mut GameRegistry,
    game_code: usize,
    player_name: String,
    sender_id: u128,
) -> (out: Vec<(u128, ServerToClient)>)
    requires
        old(registry).wf(),
    ensures
        final(registry).wf(),
        final(registry).active_sessions() == old(registry).active_sessions(),
        join_outcome(
            old(registry)@,
            final(registry)@,
            sends_view(out@),
            game_code,
            player_name@,
            sender_id,
        ),
{
    let name = trim_name(&player_name);
    let len = name.as_str().unicode_len();
    if len == 0 {
        return single_error(sender_id, "Player name cannot be empty.".to_owned());
    }
    if len > 12 {
        return single_error(sender_id, "Player name is too long.".to_owned());
    }
    let mut game = match registry.take(game_code) {
        Some(g) => g,
        None => {
            return single_error(sender_id, "Game not found.".to_owned());
        },
    };
    let accepted_name = name.clone();
    match game.join(sender_id, name) {
        Err(JoinRejection::AlreadyInGame) => {
            registry.put(game_code, game);
            proof {
                assert(registry@ =~= old(registry)@);
            }
            single_error(sender_id, "Player is already in the game.".to_owned())
        },
        Err(JoinRejection::NameTaken) => {
            registry.put(game_code, game);
            proof {
                assert(registry@ =~= old(registry)@);
            }
            single_error(sender_id, "Player name is already taken.".to_owned())
        },
        Ok(()) => {
            let snapshot = game.to_json();
            let mut out: Vec<(u128, ServerToClient)> = Vec::new();
            out.push(
                (
                    sender_id,
                    ServerToClient::GameJoined {
                        player_id: sender_id,
                        player_name: accepted_name,
                        game_state: snapshot,
                    },
                ),
            );
            let mut fanout = broadcast_state_update(&game);
            let ghost first = out@;
            let ghost fan = fanout@;
            out.append(&mut fanout);
            registry.put(game_code, game);
            proof {
                let g2 = old(registry)@[game_code]@.with_joined(sender_id, trimmed(player_name@));
                assert(registry@.contains_key(game_code));
                assert(registry@ =~= old(registry)@.insert(game_code, registry@[game_code]));
                assert(sends_view(out@) =~= sends_view(first) + sends_view(fan));
                assert(sends_view(first) =~= single_send(
                    sender_id,
                    ServerMsgModel::GameJoined {
                        player_id: sender_id,
                        player_name: trimmed(player_name@),
                        game_state: g2,
                    },
                ));
            }
            out
        },
    }
}

/// Record a buzz against the session named by `game_code`.
fn handle_buzz(registry: &mut GameRegistry, game_code: usize, player_id: u128) -> (out: Vec<
    (u128, ServerToClient),
>)
    requires
        old(registry).wf(),
    ensures
        final(registry).wf(),
        final(registry).active_sessions() == old(registry).active_sessions(),
        buzz_outcome(old(registry)@, final(registry)@, sends_view(out@), game_code, player_id),
{
    let mut out: Vec<(u128, ServerToClient)> = Vec::new();
    let mut game = match registry.take(game_code) {
        Some(g) => g,
        None => {
            proof {
                assert(sends_view(out@) =~= Seq::<(u128, ServerMsgModel)>::empty());
            }
            return out;
        },
    };
    let ghost g = game@;
    match game.buzz(player_id) {
        Some(name) => {
            out.push(
                (
                    game.host_id,
                    ServerToClient::PlayerBuzzed { player_id, player_name: name },
                ),
            );
            let mut fanout = broadcast_state_update(&game);
            let ghost first = out@;
            let ghost fan = fanout@;
            out.append(&mut fanout);
            registry.put(game_code, game);
            proof {
                assert(registry@.contains_key(game_code));
                assert(registry@ =~= old(registry)@.insert(game_code, registry@[game_code]));
                assert(sends_view(out@) =~= sends_view(first) + sends_view(fan));
                assert(sends_view(first) =~= single_send(
                    g.host_id,
                    ServerMsgModel::PlayerBuzzed { player_id, player_name: g.name_of(player_id) },
                ));
            }
        },
        None => {
            registry.put(game_code, game);
            proof {
                assert(registry@ =~= old(registry)@);
                assert(registry@ =~= old(registry)@.insert(game_code, registry@[game_code]));
                assert(sends_view(out@) =~= Seq::<(u128, ServerMsgModel)>::empty());
            }
        },
    }
    out
}

/// Set or release the session lock at the host's request.
fn handle_lock(registry: &mut GameRegistry, game_code: usize, sender_id: u128, locked: bool) -> (out:
    Vec<(u128, ServerToClient)>)
    requires
        old(registry).wf(),
    ensures
        final(registry).wf(),
        final(registry).active_sessions() == old(registry).active_sessions(),
        lock_outcome(old(registry)@, final(registry)@, sends_view(out@), game_code, sender_id, locked),
{
    let mut out: Vec<(u128, ServerToClient)> = Vec::new();
    let mut game = match registry.take(game_code) {
        Some(g) => g,
        None => {
            proof {
                assert(sends_view(out@) =~= Seq::<(u128, ServerMsgModel)>::empty());
            }
            return out;
        },
    };
    if game.set_locked(sender_id, locked) {
        let mut fanout = broadcast_state_update(&game);
        let ghost fan = fanout@;
        out.append(&mut fanout);
        registry.put(game_code, game);
        proof {
            assert(registry@.contains_key(game_code));
            assert(registry@ =~= old(registry)@.insert(game_code, registry@[game_code]));
            assert(sends_view(out@) =~= sends_view(fan));
        }
    } else {
        registry.put(game_code, game);
        proof {
            assert(registry@ =~= old(registry)@);
            assert(registry@ =~= old(registry)@.insert(game_code, registry@[game_code]));
            assert(sends_view(out@) =~= Seq::<(u128, ServerMsgModel)>::empty());
        }
    }
    out
}

/// Empty the buzz queue at the host's request.
fn handle_clear(registry: &mut GameRegistry, game_code: usize, sender_id: u128) -> (out: Vec<
    (u128, ServerToClient),
>)
    requires
        old(registry).wf(),
    ensures
        final(registry).wf(),
        final(registry).active_sessions() == old(registry).active_sessions(),
        clear_outcome(old(registry)@, final(registry)@, sends_view(out@), game_code, sender_id),
{
    let mut out: Vec<(u128, ServerToClient)> = Vec::new();
    let mut game = match registry.take(game_code) {
        Some(g) => g,
        None => {
            proof {
                assert(sends_view(out@) =~= Seq::<(u128, ServerMsgModel)>::empty());
            }
            return out;
        },
    };
    if game.clear(sender_id) {
        let mut fanout = broadcast_state_update(&game);
        let ghost fan = fanout@;
        out.append(&mut fanout);
        registry.put(game_code, game);
        proof {
            assert(registry@.contains_key(game_code));
            assert(registry@ =~= old(registry)@.insert(game_code, registry@[game_code]));
            assert(sends_view(out@) =~= sends_view(fan));
        }
    } else {
        registry.put(game_code, game);
        proof {
            assert(registry@ =~= old(registry)@);
            assert(registry@ =~= old(registry)@.insert(game_code, registry@[game_code]));
            assert(sends_view(out@) =~= Seq::<(u128, ServerMsgModel)>::empty());
        }
    }
    out
}

/// Apply a host-issued score delta against one player of the session.
fn handle_update_score(
    registry: &mut GameRegistry,
    game_code: usize,
    player_id: u128,
    delta: i32,
    sender_id: u128,
) -> (out: Vec<(u128, ServerToClient)>)
    requires
        old(registry).wf(),
    ensures
        final(registry).wf(),
        final(registry).active_sessions() == old(registry).active_sessions(),
        score_outcome(
            old(registry)@,
            final(registry)@,
            sends_view(out@),
            game_code,
            player_id,
            delta,
            sender_id,
        ),
{
    let mut out: Vec<(u128, ServerToClient)> = Vec::new();
    let mut game = match registry.take(game_code) {
        Some(g) => g,
        None => {
            proof {
                assert(sends_view(out@) =~= Seq::<(u128, ServerMsgModel)>::empty());
            }
            return out;
        },
    };
    if game.update_score(sender_id, player_id, delta) {
        let mut fanout = broadcast_state_update(&game);
        let ghost fan = fanout@;
        out.append(&mut fanout);
        registry.put(game_code, game);
        proof {
            assert(registry@.contains_key(game_code));
            assert(registry@ =~= old(registry)@.insert(game_code, registry@[game_code]));
            assert(sends_view(out@) =~= sends_view(fan));
        }
    } else {
        registry.put(game_code, game);
        proof {
            assert(registry@ =~= old(registry)@);
            assert(registry@ =~= old(registry)@.insert(game_code, registry@[game_code]));
            assert(sends_view(out@) =~= Seq::<(u128, ServerMsgModel)>::empty());
        }
    }
    out
}

/// Validate and dispatch one inbound client event: look up (or create)
/// the addressed session, mutate it, and return the outbound messages
/// owed, in delivery order.  Events against a session serialize through
/// the registry entry; the transport layer performs the sends.
///
/// Creating a session needs a free code, so the registry must not hold
/// the whole five-digit range.
pub fn handle_c2s_message(
    registry: &mut GameRegistry,
    msg: ClientToServer,
    sender_id: u128,
) -> (out: Vec<(u128, ServerToClient)>)
    requires
        old(registry).wf(),
        msg matches ClientToServer::CreateGame ==> old(registry).active_sessions() < 89999,
    ensures
        final(registry).wf(),
        (msg matches ClientToServer::CreateGame ==> final(registry).active_sessions() == old(
            registry,
        ).active_sessions() + 1),
        (!(msg matches ClientToServer::CreateGame) ==> final(registry).active_sessions() == old(
            registry,
        ).active_sessions()),
        (msg matches ClientToServer::CreateGame ==> create_outcome(
            old(registry)@,
            final(registry)@,
            sends_view(out@),
            sender_id,
        )),
        (msg matches ClientToServer::JoinGame { game_code, player_name } ==> join_outcome(
            old(registry)@,
            final(registry)@,
            sends_view(out@),
            game_code,
            player_name@,
            sender_id,
        )),
        (msg matches ClientToServer::Buzz { game_code, player_id } ==> buzz_outcome(
            old(registry)@,
            final(registry)@,
            sends_view(out@),
            game_code,
            player_id,
        )),
        (msg matches ClientToServer::Lock { game_code } ==> lock_outcome(
            old(registry)@,
            final(registry)@,
            sends_view(out@),
            game_code,
            sender_id,
            true,
        )),
        (msg matches ClientToServer::Unlock { game_code } ==> lock_outcome(
            old(registry)@,
            final(registry)@,
            sends_view(out@),
            game_code,
            sender_id,
            false,
        )),
        (msg matches ClientToServer::Clear { game_code } ==> clear_outcome(
            old(registry)@,
            final(registry)@,
            sends_view(out@),
            game_code,
            sender_id,
        )),
        (msg matches ClientToServer::UpdateScore { game_code, player_id, delta } ==> score_outcome(
            old(registry)@,
            final(registry)@,
            sends_view(out@),
            game_code,
            player_id,
            delta,
            sender_id,
        )),
{
    match msg {
        ClientToServer::CreateGame => handle_create(registry, sender_id),
        ClientToServer::JoinGame { game_code, player_name } => handle_join(
            registry,
            game_code,
            player_name,
            sender_id,
        ),
        ClientToServer::Buzz { game_code, player_id } => handle_buzz(
            registry,
            game_code,
            player_id,
        ),
        ClientToServer::Lock { game_code } => handle_lock(registry, game_code, sender_id, true),
        ClientToServer::Unlock { game_code } => handle_lock(registry, game_code, sender_id, false),
        ClientToServer::Clear { game_code } => handle_clear(registry, game_code, sender_id),
        ClientToServer::UpdateScore { game_code, player_id, delta } => handle_update_score(
            registry,
            game_code,
            player_id,
            delta,
            sender_id,
        ),
    }
}

/// The outcome owed when a connection closes: when no session holds the
/// participant, nothing changes and nothing is sent; otherwise one session
/// holding it loses the participant from its registry, scores and join
/// order, and either the whole session ends (the host left) or the
/// remaining participants get exactly one state update each.
pub open spec fn disconnect_outcome(
    r0: Map<usize, GameState>,
    r1: Map<usize, GameState>,
    out: Seq<(u128, ServerMsgModel)>,
    pid: u128,
) -> bool {
    if forall|c: usize| #[trigger] r0.contains_key(c) ==> !r0[c]@.has_player(pid) {
        r1 == r0 && out == Seq::<(u128, ServerMsgModel)>::empty()
    } else {
        exists|c: usize|
            {
                &&& #[trigger] r0.contains_key(c)
                &&& r0[c]@.has_player(pid)
                &&& {
                    let g = r0[c]@;
                    let g2 = g.with_removed(pid);
                    if pid == g.host_id {
                        r1 == r0.remove(c) && out == Seq::<(u128, ServerMsgModel)>::empty()
                    } else {
                        &&& r1.contains_key(c)
                        &&& r1[c]@ == g2
                        &&& r1 == r0.insert(c, r1[c])
                        &&& out == broadcast_msgs(g2)
                    }
                }
            }
    }
}

/// Clean up after a closed connection: remove the participant from the
/// session holding it, ending the session when the participant was its
/// host (or when nobody is left), and return the messages owed to the
/// remaining participants.
pub fn handle_disconnect(registry: &mut GameRegistry, pid: u128) -> (out: Vec<
    (u128, ServerToClient),
>)
    requires
        old(registry).wf(),
    ensures
        final(registry).wf(),
        final(registry).active_sessions() <= old(registry).active_sessions(),
        disconnect_outcome(old(registry)@, final(registry)@, sends_view(out@), pid),
{
    let mut out: Vec<(u128, ServerToClient)> = Vec::new();
    let code = match registry.find_player_session(pid) {
        Some(c) => c,
        None => {
            proof {
                assert(sends_view(out@) =~= Seq::<(u128, ServerMsgModel)>::empty());
            }
            return out;
        },
    };
    let mut game = match registry.take(code) {
        Some(g) => g,
        None => {
            proof {
                assert(sends_view(out@) =~= Seq::<(u128, ServerMsgModel)>::empty());
            }
            return out;
        },
    };
    let ghost g = game@;
    let was_host = game.host_id == pid;
    game.remove_participant(pid);
    if was_host || game.players.is_empty() {
        // The session ends; its state is dropped and nobody is notified.
        proof {
            assert(!(g.host_id != pid && g.with_removed(pid).players.len() == 0)) by {
                if g.host_id != pid {
                    assert(g.with_removed(pid).has_player(g.host_id)) by {
                        crate::game::lemma_remove_distinct(g.player_ids(), g.player_index(pid));
                        assert(g.player_ids()[g.player_index(pid)] == pid);
                        assert(g.with_removed(pid).player_ids() =~= g.player_ids().remove(
                            g.player_index(pid),
                        ));
                    }
                }
            }
            assert(sends_view(out@) =~= Seq::<(u128, ServerMsgModel)>::empty());
        }
    } else {
        let mut fanout = broadcast_state_update(&game);
        let ghost fan = fanout@;
        out.append(&mut fanout);
        registry.put(code, game);
        proof {
            assert(registry@.contains_key(code));
            assert(registry@ =~= old(registry)@.insert(code, registry@[code]));
            assert(sends_view(out@) =~= sends_view(fan));
        }
    }
    out
}

} // verus!
