use dashmap::DashMap;
use vstd::prelude::*;

use crate::game::Game;

verus! {

#[verifier::external_type_specification]
#[verifier::external_body]
#[verifier::reject_recursive_types(K)]
#[verifier::reject_recursive_types(V)]
#[verifier::reject_recursive_types(S)]
pub struct ExDashMap<K, V, S>(DashMap<K, V, S>);

/// The sessions that a store holds, by the 128-bit value of their id.
pub uninterp spec fn sessions_of(m: DashMap<u128, Game>) -> Map<u128, Game>;

/// The contents of a store that holds nothing.
pub open spec fn no_sessions() -> Map<u128, Game> {
    Map::empty()
}

/// Relies on DashMap::new: a new map holds no entries.
#[verifier::external_body]
pub(crate) fn sessions_new() -> (r: DashMap<u128, Game>)
    ensures
        sessions_of(r) == no_sessions(),
{
    DashMap::new()
}

/// Relies on DashMap::insert: afterwards the key maps to the value, any
/// earlier value for it being replaced, and the other entries stay.
#[verifier::external_body]
pub(crate) fn sessions_insert(m: &mut DashMap<u128, Game>, id: u128, game: Game)
    ensures
        sessions_of(*final(m)) == sessions_of(*old(m)).insert(id, game),
{
    m.insert(id, game);
}

/// Relies on DashMap::get: the value stored under the key, if any, copied
/// out of the read guard.
#[verifier::external_body]
pub(crate) fn sessions_get(m: &DashMap<u128, Game>, id: u128) -> (r: Option<Game>)
    ensures
        r == (if sessions_of(*m).contains_key(id) {
            Some(sessions_of(*m)[id])
        } else {
            None
        }),
{
    m.get(&id).map(|entry| *entry)
}

} // verus!
