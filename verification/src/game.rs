//! Authoritative state of one buzzer session: the lock flag, the ordered
//! buzz queue, the player registry, the scores, and the join order.
//!
//! `GameState` is the executable state; `GameModel` is its mathematical
//! view, over which every contract in this crate is stated.

use vstd::prelude::*;

use crate::actor::{Actor, ActorModel};

verus! {

/// True when no element occurs twice in the sequence.
pub open spec fn all_distinct<A>(s: Seq<A>) -> bool {
    forall|i: int, j: int| 0 <= i < j < s.len() ==> s[i] != s[j]
}

/// Appending a fresh id keeps a distinct sequence distinct and keeps every
/// id it already held.
pub proof fn lemma_push_distinct<A>(s: Seq<A>, x: A)
    requires
        all_distinct(s),
        !s.contains(x),
    ensures
        all_distinct(s.push(x)),
        forall|y: A| s.contains(y) ==> #[trigger] s.push(x).contains(y),
        s.push(x).contains(x),
{
    assert(s.push(x)[s.len() as int] == x);
    assert forall|i: int, j: int| 0 <= i < j < s.push(x).len() implies s.push(x)[i]
        != s.push(x)[j] by {
        if j < s.len() {
        } else {
            assert(s.push(x)[i] == s[i]);
        }
    }
    assert forall|y: A| s.contains(y) implies #[trigger] s.push(x).contains(y) by {
        let k = choose|k: int| 0 <= k < s.len() && s[k] == y;
        assert(s.push(x)[k] == y);
    }
}

/// Removing one position from a distinct sequence keeps it distinct, keeps
/// every other id, and drops exactly the id that stood there.
pub proof fn lemma_remove_distinct<A>(s: Seq<A>, i: int)
    requires
        all_distinct(s),
        0 <= i < s.len(),
    ensures
        all_distinct(s.remove(i)),
        forall|x: A| s.contains(x) && x != s[i] ==> #[trigger] s.remove(i).contains(x),
        forall|x: A| #[trigger] s.remove(i).contains(x) ==> s.contains(x),
        !s.remove(i).contains(s[i]),
{
    s.remove_ensures(i);
    let t = s.remove(i);
    assert forall|p: int, q: int| 0 <= p < q < t.len() implies t[p] != t[q] by {
        let p0 = if p < i { p } else { p + 1 };
        let q0 = if q < i { q } else { q + 1 };
        assert(t[p] == s[p0]);
        assert(t[q] == s[q0]);
    }
    assert forall|x: A| s.contains(x) && x != s[i] implies #[trigger] t.contains(x) by {
        let k = choose|k: int| 0 <= k < s.len() && s[k] == x;
        if k < i {
            assert(t[k] == x);
        } else {
            assert(t[k - 1] == x);
        }
    }
    assert forall|x: A| #[trigger] t.contains(x) implies s.contains(x) by {
        let k = choose|k: int| 0 <= k < t.len() && t[k] == x;
        if k < i {
            assert(s[k] == x);
        } else {
            assert(s[k + 1] == x);
        }
    }
    assert forall|k: int| 0 <= k < t.len() implies t[k] != s[i] by {
        if k < i {
        } else {
            assert(t[k] == s[k + 1]);
        }
    }
    if t.contains(s[i]) {
        let k = choose|k: int| 0 <= k < t.len() && t[k] == s[i];
        assert(false);
    }
}

/// Mathematical model of one session's state.
#[verifier::ext_equal]
pub struct GameModel {
    /// Id of the creating participant; never changes while the session lives.
    pub host_id: u128,
    /// Gates whether buzz events are accepted.
    pub locked: bool,
    /// Ordered, duplicate-free record of who buzzed first, with resolved names.
    pub buzzer_order: Seq<(u128, Seq<char>)>,
    /// Participant registry in join order; ids are unique.
    pub players: Seq<(u128, ActorModel)>,
    /// Score per id; ids are unique, every non-host player has an entry.
    pub scores: Seq<(u128, i32)>,
    /// Ids in join order; always equal to the ids of `players`.
    pub player_join_order: Seq<u128>,
}

impl GameModel {
    /// The ids of `players`, in join order.
    pub open spec fn player_ids(self) -> Seq<u128> {
        self.players.map_values(|p: (u128, ActorModel)| p.0)
    }

    /// The ids of `scores`.
    pub open spec fn score_ids(self) -> Seq<u128> {
        self.scores.map_values(|p: (u128, i32)| p.0)
    }

    /// The ids recorded in `buzzer_order`.
    pub open spec fn buzzed_ids(self) -> Seq<u128> {
        self.buzzer_order.map_values(|p: (u128, Seq<char>)| p.0)
    }

    /// Whether `id` is a participant of this session.
    pub open spec fn has_player(self, id: u128) -> bool {
        self.player_ids().contains(id)
    }

    /// Whether `id` has a score entry.
    pub open spec fn has_score(self, id: u128) -> bool {
        self.score_ids().contains(id)
    }

    /// Whether `id` already stands in the buzz queue.
    pub open spec fn has_buzzed(self, id: u128) -> bool {
        self.buzzed_ids().contains(id)
    }

    /// The index of participant `id` in `players`; meaningful when
    /// `has_player(id)` and the ids are distinct.
    pub open spec fn player_index(self, id: u128) -> int {
        choose|i: int| 0 <= i < self.players.len() && self.players[i].0 == id
    }

    /// The index of `id` in `scores`; meaningful when `has_score(id)`.
    pub open spec fn score_index(self, id: u128) -> int {
        choose|i: int| 0 <= i < self.scores.len() && self.scores[i].0 == id
    }

    /// The participant registered under `id`.
    pub open spec fn actor_of(self, id: u128) -> ActorModel {
        self.players[self.player_index(id)].1
    }

    /// The display name resolved for participant `id`.
    pub open spec fn name_of(self, id: u128) -> Seq<char> {
        self.actor_of(id).display_name()
    }

    /// The score recorded for `id`, taking absent entries as zero.
    pub open spec fn score_of(self, id: u128) -> int {
        if self.has_score(id) {
            self.scores[self.score_index(id)].1 as int
        } else {
            0
        }
    }

    /// Whether some participant already carries the display name `name`.
    pub open spec fn name_taken(self, name: Seq<char>) -> bool {
        exists|i: int|
            0 <= i < self.players.len() && self.players[i].1.display_name() == name
    }

    /// Well-formedness of a session:
    /// - player, score and buzz ids are free of duplicates,
    /// - the host is registered, and only the host is the `Host` variant,
    /// - every registered actor carries the id it is keyed under,
    /// - the join order is exactly the ids of `players`,
    /// - every non-host player has a score entry.
    pub open spec fn inv(self) -> bool {
        &&& all_distinct(self.player_ids())
        &&& all_distinct(self.score_ids())
        &&& all_distinct(self.buzzed_ids())
        &&& self.has_player(self.host_id)
        &&& self.player_join_order == self.player_ids()
        &&& forall|i: int|
            0 <= i < self.players.len() ==> (#[trigger] self.players[i]).1.id() == self.players[i].0
        &&& forall|i: int|
            0 <= i < self.players.len() ==> ((#[trigger] self.players[i]).1.is_host() <==> self.players[i].0 == self.host_id)
        &&& forall|i: int|
            0 <= i < self.players.len() && !(#[trigger] self.players[i]).1.is_host()
                ==> self.has_score(self.players[i].0)
    }

    /// The state of a freshly created session: unlocked, empty buzz queue,
    /// the host as only participant, no scores yet.
    pub open spec fn init(host: u128) -> GameModel {
        GameModel {
            host_id: host,
            locked: false,
            buzzer_order: Seq::empty(),
            players: seq![(host, ActorModel::Host { id: host })],
            scores: Seq::empty(),
            player_join_order: seq![host],
        }
    }

    /// The same session with the lock flag set to `locked`.
    pub open spec fn with_locked(self, locked: bool) -> GameModel {
        GameModel { locked, ..self }
    }

    /// The same session with the buzz queue emptied.
    pub open spec fn with_cleared(self) -> GameModel {
        GameModel { buzzer_order: Seq::empty(), ..self }
    }

    /// Whether a buzz by `id` is accepted: the session is unlocked, `id` is
    /// a participant, and `id` has not buzzed since the last clear.
    pub open spec fn accepts_buzz(self, id: u128) -> bool {
        &&& !self.locked
        &&& self.has_player(id)
        &&& !self.has_buzzed(id)
    }

    /// The same session with `(id, resolved name)` appended to the buzz
    /// queue; meaningful when `accepts_buzz(id)`.
    pub open spec fn with_buzz(self, id: u128) -> GameModel {
        GameModel { buzzer_order: self.buzzer_order.push((id, self.name_of(id))), ..self }
    }

    /// The state after a buzz by `id`: appended when accepted, untouched
    /// otherwise.  A participant already in the queue is not appended again.
    pub open spec fn after_buzz(self, id: u128) -> GameModel {
        if self.accepts_buzz(id) {
            self.with_buzz(id)
        } else {
            self
        }
    }

    /// The same session with a host-issued `delta` applied to the score of
    /// `player_id`: the entry is updated in place when present, created from
    /// zero otherwise, clamped to `0..=i32::MAX` either way.
    pub open spec fn with_score(self, player_id: u128, delta: i32) -> GameModel {
        let new = crate::clamp_score(self.score_of(player_id) + delta) as i32;
        if self.has_score(player_id) {
            GameModel {
                scores: self.scores.update(self.score_index(player_id), (player_id, new)),
                ..self
            }
        } else {
            GameModel { scores: self.scores.push((player_id, new)), ..self }
        }
    }

    /// The same session with a player `(id, name)` joined: registered under
    /// `id`, the score reset to zero (created when absent), and `id`
    /// appended to the join order.
    pub open spec fn with_joined(self, id: u128, name: Seq<char>) -> GameModel {
        GameModel {
            players: self.players.push((id, ActorModel::Player { id, name })),
            scores: if self.has_score(id) {
                self.scores.update(self.score_index(id), (id, 0))
            } else {
                self.scores.push((id, 0))
            },
            player_join_order: self.player_join_order.push(id),
            ..self
        }
    }

    /// The same session with participant `id` removed from `players`, from
    /// `scores`, and from the join order; untouched when `id` is not a
    /// participant.  The buzz queue keeps any entry `id` already earned.
    pub open spec fn with_removed(self, id: u128) -> GameModel {
        if self.has_player(id) {
            let i = self.player_index(id);
            GameModel {
                players: self.players.remove(i),
                player_join_order: self.player_join_order.remove(i),
                scores: if self.has_score(id) {
                    self.scores.remove(self.score_index(id))
                } else {
                    self.scores
                },
                ..self
            }
        } else {
            self
        }
    }

    /// When distinct ids hold, `player_index` is determined: any index that
    /// carries `id` is the one `player_index` picks.
    pub proof fn lemma_player_index_det(self, id: u128, i: int)
        requires
            all_distinct(self.player_ids()),
            0 <= i < self.players.len(),
            self.players[i].0 == id,
        ensures
            self.has_player(id),
            self.player_index(id) == i,
    {
        assert(self.player_ids()[i] == id);
        let j = self.player_index(id);
        assert(self.player_ids()[j] == id);
    }

    /// The score counterpart of `lemma_player_index_det`.
    pub proof fn lemma_score_index_det(self, id: u128, i: int)
        requires
            all_distinct(self.score_ids()),
            0 <= i < self.scores.len(),
            self.scores[i].0 == id,
        ensures
            self.has_score(id),
            self.score_index(id) == i,
    {
        assert(self.score_ids()[i] == id);
        let j = self.score_index(id);
        assert(self.score_ids()[j] == id);
    }
}

/// Why a join request was turned down against a particular session.
#[derive(Debug, Clone, Copy, PartialEq, Eq, Structural)]
pub enum JoinRejection {
    /// The sender's id is already registered in this session.
    AlreadyInGame,
    /// Another participant already carries the requested display name.
    NameTaken,
}

/// Authoritative state of one session.
#[derive(Debug, Clone)]
pub struct GameState {
    pub host_id: u128,
    pub globally_locked: bool,
    pub buzzer_order: std::collections::VecDeque<(u128, String)>,
    pub players: Vec<(u128, Actor)>,
    pub scores: Vec<(u128, i32)>,
    pub player_join_order: Vec<u128>,
}

impl View for GameState {
    type V = GameModel;

    open spec fn view(&self) -> GameModel {
        GameModel {
            host_id: self.host_id,
            locked: self.globally_locked,
            buzzer_order: self.buzzer_order@.map_values(|p: (u128, String)| (p.0, p.1@)),
            players: self.players@.map_values(|p: (u128, Actor)| (p.0, p.1@)),
            scores: self.scores@,
            player_join_order: self.player_join_order@,
        }
    }
}

impl GameState {
    /// Create the state of a new session with `host` as its permanent host.
    pub fn new_game(host: u128) -> (g: GameState)
        ensures
            g@ == GameModel::init(host),
            g@.inv(),
    {
        let mut players: Vec<(u128, Actor)> = Vec::new();
        players.push((host, Actor::Host { id: host }));
        let mut join_order: Vec<u128> = Vec::new();
        join_order.push(host);
        let g = GameState {
            host_id: host,
            globally_locked: false,
            buzzer_order: std::collections::VecDeque::new(),
            players,
            scores: Vec::new(),
            player_join_order: join_order,
        };
        proof {
            assert(g@.players =~= GameModel::init(host).players);
            assert(g@.buzzer_order =~= GameModel::init(host).buzzer_order);
            assert(g@ =~= GameModel::init(host));
            assert(g@.player_join_order =~= g@.player_ids());
            assert(g@.player_ids()[0] == host);
        }
        g
    }

    /// Flip the lock flag; only the host may do so, any other sender leaves
    /// the state untouched.
    pub fn set_locked(&mut self, sender: u128, locked: bool) -> (changed: bool)
        requires
            old(self)@.inv(),
        ensures
            final(self)@.inv(),
            changed == (sender == old(self)@.host_id),
            changed ==> final(self)@ == old(self)@.with_locked(locked),
            !changed ==> *final(self) == *old(self),
    {
        if self.host_id == sender {
            self.globally_locked = locked;
            proof {
                assert(self@ =~= old(self)@.with_locked(locked));
            }
            true
        } else {
            false
        }
    }

    /// The position of participant `id` in `players`, if registered.
    pub fn find_player_index(&self, id: u128) -> (r: Option<usize>)
        ensures
            match r {
                Some(i) => i < self@.players.len() && self@.players[i as int].0 == id,
                None => !self@.has_player(id),
            },
    {
        let mut i: usize = 0;
        while i < self.players.len()
            invariant
                i <= self@.players.len(),
                forall|j: int| 0 <= j < i ==> self@.players[j].0 != id,
            decreases self@.players.len() - i,
        {
            if self.players[i].0 == id {
                return Some(i);
            }
            i += 1;
        }
        None
    }

    /// The position of `id` in `scores`, if an entry exists.
    fn find_score_index(&self, id: u128) -> (r: Option<usize>)
        ensures
            match r {
                Some(i) => i < self@.scores.len() && self@.scores[i as int].0 == id,
                None => !self@.has_score(id),
            },
    {
        let mut i: usize = 0;
        while i < self.scores.len()
            invariant
                i <= self@.scores.len(),
                forall|j: int| 0 <= j < i ==> self@.scores[j].0 != id,
            decreases self@.scores.len() - i,
        {
            if self.scores[i].0 == id {
                return Some(i);
            }
            i += 1;
        }
        None
    }

    /// Whether `id` already stands in the buzz queue.
    fn buzzed_contains(&self, id: u128) -> (r: bool)
        ensures
            r == self@.has_buzzed(id),
    {
        let mut i: usize = 0;
        while i < self.buzzer_order.len()
            invariant
                i <= self@.buzzer_order.len(),
                forall|j: int| 0 <= j < i ==> self@.buzzer_order[j].0 != id,
            decreases self@.buzzer_order.len() - i,
        {
            if self.buzzer_order[i].0 == id {
                proof {
                    assert(self@.buzzed_ids()[i as int] == id);
                }
                return true;
            }
            i += 1;
        }
        false
    }

    /// Whether some participant of this session already carries the
    /// display name `name` (case-sensitive; the host counts, under the
    /// reserved sentinel).
    pub fn name_is_taken(&self, name: &String) -> (r: bool)
        ensures
            r == self@.name_taken(name@),
    {
        let mut i: usize = 0;
        while i < self.players.len()
            invariant
                i <= self@.players.len(),
                forall|j: int| 0 <= j < i ==> (#[trigger] self@.players[j]).1.display_name() != name@,
            decreases self@.players.len() - i,
        {
            let candidate: String = self.players[i].1.name().to_owned();
            if candidate == *name {
                proof {
                    assert(self@.players[i as int].1.display_name() == name@);
                }
                return true;
            }
            i += 1;
        }
        false
    }

    /// Join `(id, name)` to this session.  Rejected, with the state left
    /// untouched, when the id is already registered or the display name is
    /// already carried by any participant; otherwise the player is
    /// registered with a zero score and appended to the join order.
    ///
    /// The display name is taken as handed in: trimming and length limits
    /// are the router's duty.
    pub fn join(&mut self, id: u128, name: String) -> (r: Result<(), JoinRejection>)
        requires
            old(self)@.inv(),
        ensures
            final(self)@.inv(),
            old(self)@.has_player(id) ==> r == Err::<(), JoinRejection>(
                JoinRejection::AlreadyInGame,
            ) && *final(self) == *old(self),
            !old(self)@.has_player(id) && old(self)@.name_taken(name@) ==> r == Err::<
                (),
                JoinRejection,
            >(JoinRejection::NameTaken) && *final(self) == *old(self),
            !old(self)@.has_player(id) && !old(self)@.name_taken(name@) ==> r == Ok::<
                (),
                JoinRejection,
            >(()) && final(self)@ == old(self)@.with_joined(id, name@),
    {
        match self.find_player_index(id) {
            Some(i) => {
                proof {
                    assert(self@.player_ids()[i as int] == id);
                }
                return Err(JoinRejection::AlreadyInGame);
            },
            None => {},
        }
        if self.name_is_taken(&name) {
            return Err(JoinRejection::NameTaken);
        }
        proof {
            assert(!old(self)@.has_player(id));
        }
        match self.find_score_index(id) {
            Some(si) => {
                proof {
                    self@.lemma_score_index_det(id, si as int);
                }
                self.scores.set(si, (id, 0));
            },
            None => {
                self.scores.push((id, 0));
            },
        }
        self.players.push((id, Actor::Player { id, name }));
        self.player_join_order.push(id);
        proof {
            let m_old = old(self)@;
            let m_new = self@;
            assert(m_new.players =~= m_old.players.push(
                (id, ActorModel::Player { id, name: name@ }),
            ));
            if m_old.has_score(id) {
                assert(m_new.scores =~= m_old.scores.update(m_old.score_index(id), (id, 0)));
                assert(m_new.score_ids() =~= m_old.score_ids());
            } else {
                assert(m_new.scores =~= m_old.scores.push((id, 0)));
                assert(m_new.score_ids() =~= m_old.score_ids().push(id));
                lemma_push_distinct(m_old.score_ids(), id);
            }
            assert(m_new =~= m_old.with_joined(id, name@));
            assert(m_new.player_ids() =~= m_old.player_ids().push(id));
            lemma_push_distinct(m_old.player_ids(), id);
            assert(m_new.player_join_order =~= m_new.player_ids());
            assert(m_new.has_score(id)) by {
                if m_old.has_score(id) {
                    assert(m_new.score_ids().contains(id));
                } else {
                    assert(m_new.score_ids()[m_old.score_ids().len() as int] == id);
                }
            }
            assert(id != m_old.host_id);
            assert forall|i: int|
                0 <= i < m_new.players.len() && !(#[trigger] m_new.players[i]).1.is_host()
                implies m_new.has_score(m_new.players[i].0) by {
                if i < m_old.players.len() {
                    assert(m_old.has_score(m_old.players[i].0));
                }
            }
        }
        Ok(())
    }

    /// Record a buzz by `player_id`: while the session is unlocked and the
    /// participant is registered and not yet in the queue, append
    /// `(player_id, resolved name)`; in every other case leave the state
    /// untouched.  Returns the resolved name when the buzz was accepted.
    pub fn buzz(&mut self, player_id: u128) -> (r: Option<String>)
        requires
            old(self)@.inv(),
        ensures
            final(self)@.inv(),
            final(self)@ == old(self)@.after_buzz(player_id),
            !old(self)@.accepts_buzz(player_id) ==> *final(self) == *old(self),
            r is Some <==> old(self)@.accepts_buzz(player_id),
            r matches Some(name) ==> name@ == old(self)@.name_of(player_id),
    {
        if self.globally_locked {
            return None;
        }
        let idx = match self.find_player_index(player_id) {
            Some(i) => i,
            None => {
                return None;
            },
        };
        if self.buzzed_contains(player_id) {
            return None;
        }
        proof {
            self@.lemma_player_index_det(player_id, idx as int);
        }
        let name: String = self.players[idx].1.name().to_owned();
        let entry_name: String = name.clone();
        self.buzzer_order.push_back((player_id, entry_name));
        proof {
            assert(self@.buzzer_order =~= old(self)@.buzzer_order.push(
                (player_id, old(self)@.name_of(player_id)),
            ));
            assert(self@ =~= old(self)@.with_buzz(player_id));
            assert(self@.buzzed_ids() =~= old(self)@.buzzed_ids().push(player_id));
            assert forall|i: int, j: int|
                0 <= i < j < self@.buzzed_ids().len() implies self@.buzzed_ids()[i]
                != self@.buzzed_ids()[j] by {
                if j < old(self)@.buzzed_ids().len() {
                } else {
                    assert(self@.buzzed_ids()[j] == player_id);
                    assert(!old(self)@.buzzed_ids().contains(player_id));
                }
            }
        }
        Some(name)
    }

    /// Apply a host-issued score delta for `player_id`: the entry is
    /// updated in place when present, created from zero otherwise, clamped
    /// to `0..=i32::MAX`.  Any sender other than the host leaves the state
    /// untouched.
    pub fn update_score(&mut self, sender: u128, player_id: u128, delta: i32) -> (changed: bool)
        requires
            old(self)@.inv(),
        ensures
            final(self)@.inv(),
            changed == (sender == old(self)@.host_id),
            changed ==> final(self)@ == old(self)@.with_score(player_id, delta),
            !changed ==> *final(self) == *old(self),
    {
        if self.host_id != sender {
            return false;
        }
        match self.find_score_index(player_id) {
            Some(i) => {
                proof {
                    self@.lemma_score_index_det(player_id, i as int);
                }
                let new = crate::apply_delta(self.scores[i].1, delta);
                self.scores.set(i, (player_id, new));
                proof {
                    assert(self@.score_ids() =~= old(self)@.score_ids());
                    assert(self@ =~= old(self)@.with_score(player_id, delta));
                }
            },
            None => {
                let new = crate::apply_delta(0, delta);
                self.scores.push((player_id, new));
                proof {
                    assert(self@.score_ids() =~= old(self)@.score_ids().push(player_id));
                    assert(self@ =~= old(self)@.with_score(player_id, delta));
                    assert forall|i: int, j: int|
                        0 <= i < j < self@.score_ids().len() implies self@.score_ids()[i]
                        != self@.score_ids()[j] by {
                        if j < old(self)@.score_ids().len() {
                        } else {
                            assert(self@.score_ids()[j] == player_id);
                            assert(!old(self)@.score_ids().contains(player_id));
                        }
                    }
                    assert forall|x: u128| old(self)@.score_ids().contains(x)
                        implies self@.score_ids().contains(x) by {
                        let k = choose|k: int|
                            0 <= k < old(self)@.score_ids().len() && old(self)@.score_ids()[k] == x;
                        assert(self@.score_ids()[k] == x);
                    }
                }
            },
        }
        true
    }

    /// Remove participant `id` from `players`, from `scores`, and from the
    /// join order; a stranger's id leaves the state untouched.  The buzz
    /// queue is not rewritten.  Removing the host leaves a state that is no
    /// longer well formed: the caller is expected to discard the whole
    /// session in that case.
    pub fn remove_participant(&mut self, id: u128) -> (was: bool)
        requires
            old(self)@.inv(),
        ensures
            was == old(self)@.has_player(id),
            final(self)@ == old(self)@.with_removed(id),
            id != old(self)@.host_id ==> final(self)@.inv(),
            !old(self)@.has_player(id) ==> *final(self) == *old(self),
    {
        let idx = match self.find_player_index(id) {
            Some(i) => i,
            None => {
                return false;
            },
        };
        proof {
            self@.lemma_player_index_det(id, idx as int);
            assert(old(self)@.player_join_order.len() == old(self)@.player_ids().len());
        }
        self.players.remove(idx);
        self.player_join_order.remove(idx);
        let score_idx = self.find_score_index(id);
        match score_idx {
            Some(si) => {
                proof {
                    old(self)@.lemma_score_index_det(id, si as int);
                }
                self.scores.remove(si);
            },
            None => {
                proof {
                    assert(!old(self)@.has_score(id));
                }
            },
        }
        proof {
            let m_old = old(self)@;
            let m_new = self@;
            let i = idx as int;
            m_old.players.remove_ensures(i);
            old(self).players@.remove_ensures(i);
            assert(m_new.players =~= m_old.players.remove(i));
            assert(m_new.player_ids() =~= m_old.player_ids().remove(i));
            assert(m_new =~= m_old.with_removed(id));
            if id != m_old.host_id {
                lemma_remove_distinct(m_old.player_ids(), i);
                m_old.player_ids().remove_ensures(i);
                if m_old.has_score(id) {
                    let si = m_old.score_index(id);
                    assert(m_new.score_ids() =~= m_old.score_ids().remove(si));
                    lemma_remove_distinct(m_old.score_ids(), si);
                    m_old.score_ids().remove_ensures(si);
                }
                assert(m_new.has_player(m_new.host_id)) by {
                    assert(m_old.player_ids().contains(m_old.host_id));
                }
                assert(m_new.player_join_order =~= m_new.player_ids());
                assert forall|p: int|
                    0 <= p < m_new.players.len() implies {
                    &&& (#[trigger] m_new.players[p]).1.id() == m_new.players[p].0
                    &&& (m_new.players[p].1.is_host() <==> m_new.players[p].0 == m_new.host_id)
                    &&& (!m_new.players[p].1.is_host() ==> m_new.has_score(m_new.players[p].0))
                } by {
                    let p0 = if p < i {
                        p
                    } else {
                        p + 1
                    };
                    assert(m_new.players[p] == m_old.players[p0]);
                    if !m_old.players[p0].1.is_host() {
                        assert(m_old.has_score(m_old.players[p0].0));
                        assert(m_old.players[p0].0 != id) by {
                            assert(m_old.player_ids()[p0] == m_old.players[p0].0);
                            assert(m_old.player_ids()[i] == id);
                        }
                        assert(m_new.has_score(m_old.players[p0].0));
                    }
                }
            }
        }
        true
    }

    /// Empty the buzz queue; only the host may do so, any other sender
    /// leaves the state untouched.
    pub fn clear(&mut self, sender: u128) -> (changed: bool)
        requires
            old(self)@.inv(),
        ensures
            final(self)@.inv(),
            changed == (sender == old(self)@.host_id),
            changed ==> final(self)@ == old(self)@.with_cleared(),
            !changed ==> *final(self) == *old(self),
    {
        if self.host_id == sender {
            self.buzzer_order = std::collections::VecDeque::new();
            proof {
                assert(self@.buzzer_order =~= Seq::<(u128, Seq<char>)>::empty());
                assert(self@ =~= old(self)@.with_cleared());
            }
            true
        } else {
            false
        }
    }
}

/// One full state snapshot of a session, as every client sees it.  The
/// field names follow the wire form (`locked`); client-visible ordering is
/// carried by `buzzer_order` and `player_join_order`.
#[derive(Debug, Clone)]
pub struct GameStateJson {
    pub host_id: u128,
    pub locked: bool,
    pub buzzer_order: std::collections::VecDeque<(u128, String)>,
    pub players: Vec<(u128, Actor)>,
    pub scores: Vec<(u128, i32)>,
    pub player_join_order: Vec<u128>,
}

impl View for GameStateJson {
    type V = GameModel;

    open spec fn view(&self) -> GameModel {
        GameModel {
            host_id: self.host_id,
            locked: self.locked,
            buzzer_order: self.buzzer_order@.map_values(|p: (u128, String)| (p.0, p.1@)),
            players: self.players@.map_values(|p: (u128, Actor)| (p.0, p.1@)),
            scores: self.scores@,
            player_join_order: self.player_join_order@,
        }
    }
}

impl GameState {
    /// Build the snapshot of this session that is sent to clients: the
    /// same state under the wire-form field names.
    pub fn to_json(&self) -> (j: GameStateJson)
        ensures
            j@ == self@,
    {
        let mut buzzer_order: std::collections::VecDeque<(u128, String)> =
            std::collections::VecDeque::new();
        let mut i: usize = 0;
        while i < self.buzzer_order.len()
            invariant
                i <= self.buzzer_order@.len(),
                buzzer_order@.len() == i,
                forall|k: int|
                    0 <= k < i ==> (#[trigger] buzzer_order@[k]).0 == self.buzzer_order@[k].0
                        && buzzer_order@[k].1@ == self.buzzer_order@[k].1@,
            decreases self.buzzer_order@.len() - i,
        {
            let id = self.buzzer_order[i].0;
            let name = self.buzzer_order[i].1.clone();
            buzzer_order.push_back((id, name));
            i += 1;
        }
        let mut players: Vec<(u128, Actor)> = Vec::new();
        i = 0;
        while i < self.players.len()
            invariant
                i <= self.players@.len(),
                players@.len() == i,
                forall|k: int|
                    0 <= k < i ==> (#[trigger] players@[k]).0 == self.players@[k].0
                        && players@[k].1@ == self.players@[k].1@,
            decreases self.players@.len() - i,
        {
            let id = self.players[i].0;
            let actor = match &self.players[i].1 {
                Actor::Host { id: h } => Actor::Host { id: *h },
                Actor::Player { id: p, name } => Actor::Player { id: *p, name: name.clone() },
            };
            proof {
                assert(actor@ == self.players@[i as int].1@);
            }
            players.push((id, actor));
            i += 1;
        }
        let mut scores: Vec<(u128, i32)> = Vec::new();
        i = 0;
        while i < self.scores.len()
            invariant
                i <= self@.scores.len(),
                scores@ =~= self@.scores.take(i as int),
            decreases self@.scores.len() - i,
        {
            scores.push(self.scores[i]);
            i += 1;
        }
        let mut player_join_order: Vec<u128> = Vec::new();
        i = 0;
        while i < self.player_join_order.len()
            invariant
                i <= self@.player_join_order.len(),
                player_join_order@ =~= self@.player_join_order.take(i as int),
            decreases self@.player_join_order.len() - i,
        {
            player_join_order.push(self.player_join_order[i]);
            i += 1;
        }
        let j = GameStateJson {
            host_id: self.host_id,
            locked: self.globally_locked,
            buzzer_order,
            players,
            scores,
            player_join_order,
        };
        proof {
            assert(j@.buzzer_order =~= self@.buzzer_order);
            assert(j@.players =~= self@.players);
            assert(self@.scores.take(self@.scores.len() as int) =~= self@.scores);
            assert(self@.player_join_order.take(self@.player_join_order.len() as int)
                =~= self@.player_join_order);
            assert(j@ =~= self@);
        }
        j
    }
}

impl From<GameStateJson> for GameState {
    /// Rebuild the session state a snapshot was taken of.
    fn from(json: GameStateJson) -> (r: GameState) {
        GameState {
            host_id: json.host_id,
            globally_locked: json.locked,
            buzzer_order: json.buzzer_order,
            players: json.players,
            scores: json.scores,
            player_join_order: json.player_join_order,
        }
    }
}

impl vstd::std_specs::convert::FromSpecImpl<GameStateJson> for GameState {
    open spec fn obeys_from_spec() -> bool {
        true
    }

    open spec fn from_spec(v: GameStateJson) -> GameState {
        GameState {
            host_id: v.host_id,
            globally_locked: v.locked,
            buzzer_order: v.buzzer_order,
            players: v.players,
            scores: v.scores,
            player_join_order: v.player_join_order,
        }
    }
}

} // verus!
