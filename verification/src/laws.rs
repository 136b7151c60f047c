//! Session-level laws that relate several operations, proved over the
//! mathematical model that every contract of this crate is stated in.

use vstd::prelude::*;

use crate::game::{GameModel, GameState};
use crate::message::ServerMsgModel;
use crate::router::create_outcome;

verus! {

/// Active sessions never share a code: the code that `CreateGame`
/// allocates differs from the code of every session that was already
/// active, and each of those sessions stays active, unchanged.
pub proof fn lemma_created_code_fresh(
    r0: Map<usize, GameState>,
    r1: Map<usize, GameState>,
    out: Seq<(u128, ServerMsgModel)>,
    sender: u128,
    c: usize,
)
    requires
        create_outcome(r0, r1, out, sender),
        r0.contains_key(c),
    ensures
        r1.contains_key(c),
        r1[c] == r0[c],
        out[0].1 matches ServerMsgModel::GameCreated { game_code, .. } ==> game_code != c,
{
}

/// A second buzz by the same participant, with no clear in between, is a
/// no-op: one arrival earns at most one entry in the buzz queue.
pub proof fn lemma_buzz_idempotent(g: GameModel, id: u128)
    requires
        g.inv(),
    ensures
        g.after_buzz(id).after_buzz(id) == g.after_buzz(id),
{
    if g.accepts_buzz(id) {
        let g2 = g.with_buzz(id);
        assert(g2.buzzed_ids() =~= g.buzzed_ids().push(id));
        assert(g2.buzzed_ids()[g.buzzed_ids().len() as int] == id);
        assert(g2.has_buzzed(id));
    }
}

/// Clearing wipes every recorded buzz, whoever had buzzed: after a host
/// clear, a participant who buzzed before may buzz again.
pub proof fn lemma_clear_resets_buzzes(g: GameModel, id: u128)
    requires
        g.inv(),
    ensures
        !g.with_cleared().has_buzzed(id),
        g.with_cleared().buzzer_order.len() == 0,
{
    assert(g.with_cleared().buzzed_ids() =~= Seq::<u128>::empty());
}

} // verus!
