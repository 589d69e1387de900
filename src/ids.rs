use vstd::prelude::*;

verus! {

/// A player's identifier: the 128-bit value of a UUID.
#[derive(Clone, Copy, PartialEq, Eq, Structural, Hash, Debug)]
pub struct UserId(pub u128);

/// A game session's identifier: the 128-bit value of a UUID.
#[derive(Clone, Copy, PartialEq, Eq, Structural, Hash, Debug)]
pub struct GameId(pub u128);

/// What a client is told on connecting: who it is and which game it is in
/// (or will be in, once paired).
#[derive(Clone, Copy, PartialEq, Eq, Structural, Hash, Debug)]
pub struct ClientInfo {
    pub user_id: UserId,
    pub game_id: GameId,
}

/// Relies on uuid::Uuid::new_v4: a random version-4 UUID, handed back as its
/// 128-bit value. Nothing is promised of the value.
#[verifier::external_body]
pub(crate) fn fresh_uuid() -> (r: u128) {
    uuid::Uuid::new_v4().as_u128()
}

} // verus!
