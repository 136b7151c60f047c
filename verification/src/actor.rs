//! Identity of a connected participant: the session's host, or a player
//! carrying a display name.  Identity is immutable once created.

use vstd::prelude::*;

verus! {

/// A connected participant of one session: the host that created it, or a
/// player with a display name.  The id is never reassigned.
#[derive(Debug, Clone)]
pub enum Actor {
    Host { id: u128 },
    Player { id: u128, name: String },
}

/// Mathematical model of an [`Actor`]: the same variants, with the display
/// name abstracted to a sequence of characters.
pub enum ActorModel {
    Host { id: u128 },
    Player { id: u128, name: Seq<char> },
}

/// The reserved display name that `Actor::name` returns for a host.
pub open spec fn host_name() -> Seq<char> {
    "HOST"@
}

impl ActorModel {
    /// The participant id, whichever variant carries it.
    pub open spec fn id(self) -> u128 {
        match self {
            ActorModel::Host { id } => id,
            ActorModel::Player { id, .. } => id,
        }
    }

    /// The display name: a player's own name, or the reserved host sentinel.
    pub open spec fn display_name(self) -> Seq<char> {
        match self {
            ActorModel::Host { .. } => host_name(),
            ActorModel::Player { name, .. } => name,
        }
    }

    /// Whether this participant is the host variant.
    pub open spec fn is_host(self) -> bool {
        self matches ActorModel::Host { .. }
    }
}

impl View for Actor {
    type V = ActorModel;

    open spec fn view(&self) -> ActorModel {
        match self {
            Actor::Host { id } => ActorModel::Host { id: *id },
            Actor::Player { id, name } => ActorModel::Player { id: *id, name: name@ },
        }
    }
}

impl Actor {
    /// The display name shown for this participant: the reserved sentinel
    /// for the host, the chosen name for a player.
    pub fn name(&self) -> (r: &str)
        ensures
            r@ == self@.display_name(),
    {
        match self {
            Actor::Host { .. } => "HOST",
            Actor::Player { name, .. } => name.as_str(),
        }
    }

    /// The participant id.
    pub fn id(&self) -> (r: u128)
        ensures
            r == self@.id(),
    {
        match self {
            Actor::Host { id } => *id,
            Actor::Player { id, .. } => *id,
        }
    }
}

} // verus!
