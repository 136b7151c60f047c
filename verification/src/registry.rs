//! Registry of active sessions: maps a session code to its state, owns
//! code generation and collision avoidance.
//!
//! The registry is viewed as a `Map` from code to session state.  An entry
//! is taken out for the duration of one event's read-modify sequence and
//! put back (or dropped, when the session ends), so one event against one
//! session is handled under exclusive access to that entry.

use vstd::prelude::*;

use crate::game::{GameState, all_distinct};

verus! {

/// The map that an association list of `(code, state)` pairs stands for;
/// later pairs win, though a well-formed registry never repeats a code.
pub open spec fn map_of(s: Seq<(usize, GameState)>) -> Map<usize, GameState>
    decreases s.len(),
{
    if s.len() == 0 {
        Map::empty()
    } else {
        map_of(s.drop_last()).insert(s.last().0, s.last().1)
    }
}

/// The codes of the association list, in order.
pub open spec fn codes_of(s: Seq<(usize, GameState)>) -> Seq<usize> {
    s.map_values(|p: (usize, GameState)| p.0)
}

/// A code is a key of `map_of(s)` exactly when some pair carries it.
pub proof fn lemma_map_of_contains(s: Seq<(usize, GameState)>, k: usize)
    ensures
        map_of(s).contains_key(k) <==> exists|i: int| 0 <= i < s.len() && (#[trigger] s[i]).0 == k,
    decreases s.len(),
{
    if s.len() > 0 {
        lemma_map_of_contains(s.drop_last(), k);
        if map_of(s).contains_key(k) {
            if s.last().0 != k {
                let i = choose|i: int| 0 <= i < s.drop_last().len() && (#[trigger] s.drop_last()[i]).0 == k;
                assert(s[i].0 == k);
            } else {
                assert(s[s.len() - 1].0 == k);
            }
        }
        if exists|i: int| 0 <= i < s.len() && (#[trigger] s[i]).0 == k {
            let i = choose|i: int| 0 <= i < s.len() && (#[trigger] s[i]).0 == k;
            if i < s.len() - 1 {
                assert(s.drop_last()[i].0 == k);
            }
        }
    }
}

/// With distinct codes, each pair's value is what the map holds under its
/// code.
pub proof fn lemma_map_of_index(s: Seq<(usize, GameState)>, i: int)
    requires
        all_distinct(codes_of(s)),
        0 <= i < s.len(),
    ensures
        map_of(s).contains_key(s[i].0),
        map_of(s)[s[i].0] == s[i].1,
    decreases s.len(),
{
    lemma_map_of_contains(s, s[i].0);
    if i < s.len() - 1 {
        assert(codes_of(s.drop_last()) =~= codes_of(s).drop_last());
        assert(s.drop_last()[i] == s[i]);
        lemma_map_of_index(s.drop_last(), i);
        assert(codes_of(s)[i] != codes_of(s)[s.len() - 1]);
    }
}

/// With distinct codes, removing pair `i` removes exactly its code from the
/// map.
pub proof fn lemma_map_of_remove(s: Seq<(usize, GameState)>, i: int)
    requires
        all_distinct(codes_of(s)),
        0 <= i < s.len(),
    ensures
        map_of(s.remove(i)) =~= map_of(s).remove(s[i].0),
    decreases s.len(),
{
    if i == s.len() - 1 {
        assert(s.remove(i) =~= s.drop_last());
        lemma_map_of_contains(s.drop_last(), s[i].0);
        assert(!map_of(s.drop_last()).contains_key(s[i].0)) by {
            if map_of(s.drop_last()).contains_key(s[i].0) {
                let j = choose|j: int|
                    0 <= j < s.drop_last().len() && (#[trigger] s.drop_last()[j]).0 == s[i].0;
                assert(codes_of(s)[j] == codes_of(s)[i]);
            }
        }
        assert(map_of(s.drop_last()) =~= map_of(s.drop_last()).insert(s.last().0, s.last().1).remove(
            s[i].0,
        ));
    } else {
        assert(codes_of(s.drop_last()) =~= codes_of(s).drop_last());
        assert(s.remove(i).drop_last() =~= s.drop_last().remove(i));
        assert(s.remove(i).last() == s.last());
        lemma_map_of_remove(s.drop_last(), i);
        assert(s.drop_last()[i] == s[i]);
        assert(s[i].0 != s.last().0) by {
            assert(codes_of(s)[i] != codes_of(s)[s.len() - 1]);
        }
        assert(map_of(s.remove(i)) =~= map_of(s.drop_last()).remove(s[i].0).insert(
            s.last().0,
            s.last().1,
        ));
        assert(map_of(s.drop_last()).remove(s[i].0).insert(s.last().0, s.last().1) =~= map_of(
            s.drop_last(),
        ).insert(s.last().0, s.last().1).remove(s[i].0));
    }
}

/// Registry of every currently active session, keyed by session code.
#[derive(Debug)]
pub struct GameRegistry {
    games: Vec<(usize, GameState)>,
}

impl View for GameRegistry {
    type V = Map<usize, GameState>;

    closed spec fn view(&self) -> Map<usize, GameState> {
        map_of(self.games@)
    }
}

impl GameRegistry {
    /// Internal well-formedness: codes are unique and every stored session
    /// is well formed.
    pub closed spec fn wf(&self) -> bool {
        &&& all_distinct(codes_of(self.games@))
        &&& forall|i: int| 0 <= i < self.games@.len() ==> (#[trigger] self.games@[i]).1@.inv()
    }

    /// An empty registry: no session is active.
    pub fn new() -> (r: GameRegistry)
        ensures
            r.wf(),
            r@ == Map::<usize, GameState>::empty(),
            r.active_sessions() == 0,
    {
        GameRegistry { games: Vec::new() }
    }

    /// Whether `code` currently names an active session.
    pub fn contains_code(&self, code: usize) -> (r: bool)
        ensures
            r == self@.contains_key(code),
    {
        proof {
            lemma_map_of_contains(self.games@, code);
        }
        let mut i: usize = 0;
        while i < self.games.len()
            invariant
                i <= self.games@.len(),
                forall|j: int| 0 <= j < i ==> (#[trigger] self.games@[j]).0 != code,
                self@.contains_key(code) <==> exists|j: int|
                    0 <= j < self.games@.len() && (#[trigger] self.games@[j]).0 == code,
            decreases self.games@.len() - i,
        {
            if self.games[i].0 == code {
                return true;
            }
            i += 1;
        }
        false
    }

    /// Take the session named `code` out of the registry for exclusive
    /// handling, leaving the code unregistered until it is put back.
    pub fn take(&mut self, code: usize) -> (r: Option<GameState>)
        requires
            old(self).wf(),
        ensures
            final(self).wf(),
            match r {
                Some(g) => {
                    &&& old(self)@.contains_key(code)
                    &&& g == old(self)@[code]
                    &&& g@.inv()
                    &&& final(self)@ == old(self)@.remove(code)
                    &&& final(self).active_sessions() == old(self).active_sessions() - 1
                },
                None => {
                    &&& !old(self)@.contains_key(code)
                    &&& *final(self) == *old(self)
                },
            },
    {
        proof {
            lemma_map_of_contains(self.games@, code);
        }
        let mut i: usize = 0;
        while i < self.games.len()
            invariant
                *self == *old(self),
                self.wf(),
                i <= self.games@.len(),
                forall|j: int| 0 <= j < i ==> (#[trigger] self.games@[j]).0 != code,
            decreases self.games@.len() - i,
        {
            if self.games[i].0 == code {
                let ghost s = self.games@;
                proof {
                    lemma_map_of_index(s, i as int);
                    lemma_map_of_remove(s, i as int);
                    crate::game::lemma_remove_distinct(codes_of(s), i as int);
                    s.remove_ensures(i as int);
                    codes_of(s).remove_ensures(i as int);
                }
                let pair = self.games.remove(i);
                proof {
                    assert(codes_of(self.games@) =~= codes_of(s).remove(i as int));
                    assert forall|j: int| 0 <= j < self.games@.len() implies (#[trigger] self.games@[j]).1@.inv() by {
                        if j < i {
                            assert(self.games@[j] == s[j]);
                        } else {
                            assert(self.games@[j] == s[j + 1]);
                        }
                    }
                }
                return Some(pair.1);
            }
            i += 1;
        }
        None
    }

    /// Register the session `game` under `code`; the code must be free.
    pub fn put(&mut self, code: usize, game: GameState)
        requires
            old(self).wf(),
            !old(self)@.contains_key(code),
            game@.inv(),
        ensures
            final(self).wf(),
            final(self)@ == old(self)@.insert(code, game),
            final(self).active_sessions() == old(self).active_sessions() + 1,
    {
        proof {
            lemma_map_of_contains(self.games@, code);
        }
        self.games.push((code, game));
        proof {
            assert(self.games@.drop_last() =~= old(self).games@);
            assert(codes_of(self.games@) =~= codes_of(old(self).games@).push(code));
            assert forall|i: int, j: int|
                0 <= i < j < codes_of(self.games@).len() implies codes_of(self.games@)[i]
                != codes_of(self.games@)[j] by {
                if j < old(self).games@.len() {
                } else {
                    if codes_of(self.games@)[i] == code {
                        assert(old(self).games@[i].0 == code);
                    }
                }
            }
        }
    }

    /// The number of currently active sessions.
    pub closed spec fn active_sessions(&self) -> nat {
        self.games@.len()
    }

    /// The number of currently active sessions.
    pub fn session_count(&self) -> (n: usize)
        ensures
            n == self.active_sessions(),
    {
        self.games.len()
    }

    /// A registry with fewer sessions than the code range holds codes must
    /// leave some five-digit code free.
    proof fn lemma_some_code_free(&self)
        requires
            self.wf(),
            self.active_sessions() < 89999,
        ensures
            exists|k: usize| 10000 <= k < 99999 && !(#[trigger] self@.contains_key(k)),
    {
        broadcast use vstd::seq_lib::seq_to_set_is_finite;

        if forall|k: usize| 10000 <= k < 99999 ==> #[trigger] self@.contains_key(k) {
            let codes = codes_of(self.games@);
            let codes_int = codes.map_values(|c: usize| c as int);
            codes_int.lemma_cardinality_of_set();
            assert forall|k: int| vstd::set_lib::set_int_range(10000, 99999).contains(k)
                implies codes_int.to_set().contains(k) by {
                assert(self@.contains_key(k as usize));
                lemma_map_of_contains(self.games@, k as usize);
                let i = choose|i: int|
                    0 <= i < self.games@.len() && (#[trigger] self.games@[i]).0 == k as usize;
                assert(codes_int[i] == k);
            }
            vstd::set_lib::lemma_int_range(10000, 99999);
            vstd::set_lib::lemma_len_subset(
                vstd::set_lib::set_int_range(10000, 99999),
                codes_int.to_set(),
            );
        }
    }

    /// The code of some session that `pid` participates in, if any exists.
    pub fn find_player_session(&self, pid: u128) -> (r: Option<usize>)
        requires
            self.wf(),
        ensures
            match r {
                Some(c) => self@.contains_key(c) && self@[c]@.has_player(pid),
                None => forall|c: usize| #[trigger]
                    self@.contains_key(c) ==> !self@[c]@.has_player(pid),
            },
    {
        let mut i: usize = 0;
        while i < self.games.len()
            invariant
                self.wf(),
                i <= self.games@.len(),
                forall|j: int| 0 <= j < i ==> !(#[trigger] self.games@[j]).1@.has_player(pid),
            decreases self.games@.len() - i,
        {
            match self.games[i].1.find_player_index(pid) {
                Some(k) => {
                    proof {
                        assert(self.games@[i as int].1@.player_ids()[k as int] == pid);
                        lemma_map_of_index(self.games@, i as int);
                    }
                    return Some(self.games[i].0);
                },
                None => {},
            }
            i += 1;
        }
        proof {
            assert forall|c: usize| #[trigger] self@.contains_key(c) implies !self@[c]@.has_player(
                pid,
            ) by {
                lemma_map_of_contains(self.games@, c);
                let j = choose|j: int| 0 <= j < self.games@.len() && (#[trigger] self.games@[j]).0 == c;
                lemma_map_of_index(self.games@, j);
            }
        }
        None
    }
}

/// Relies on `rand::rng` and `rand::Rng::random_range`: a uniform sample
/// from the half-open range `10000..99999`, which is never empty, so the
/// call does not panic.
#[verifier::external_body]
fn random_code() -> (r: usize)
    ensures
        10000 <= r < 99999,
{
    let mut rng = rand::rng();
    rand::Rng::random_range(&mut rng, 10000..99999)
}

/// Pick a five-digit session code that misses every active session: random
/// draws first, and, should each of those collide, a scan of the code range,
/// which cannot fail while the registry holds fewer sessions than the range
/// holds codes.  With a nearly full range the random phase is useless and
/// the scan decides, so occupancy should stay low.
pub fn generate_game_code(registry: &GameRegistry) -> (code: usize)
    requires
        registry.wf(),
        registry.active_sessions() < 89999,
    ensures
        10000 <= code < 99999,
        !registry@.contains_key(code),
{
    let mut attempts: usize = 0;
    while attempts < 64
        invariant
            attempts <= 64,
        decreases 64 - attempts,
    {
        let code = random_code();
        if !registry.contains_code(code) {
            return code;
        }
        attempts += 1;
    }
    let mut code: usize = 10000;
    while code < 99999
        invariant
            10000 <= code <= 99999,
            forall|k: usize| 10000 <= k < code ==> registry@.contains_key(k),
        decreases 99999 - code,
    {
        if !registry.contains_code(code) {
            return code;
        }
        code += 1;
    }
    proof {
        registry.lemma_some_code_free();
        let k = choose|k: usize| 10000 <= k < 99999 && !(#[trigger] registry@.contains_key(k));
        assert(registry@.contains_key(k));
    }
    vstd::pervasive::unreached()
}

} // verus!
