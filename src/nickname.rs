//! The nickname of a player.
use vstd::prelude::*;

verus! {

/// A player's id with the nickname it goes by.
pub struct Nickname {
    pub id: String,
    pub nickname: String,
}

} // verus!
