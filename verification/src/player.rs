//! The manual signaling path: an offer pasted at the terminal becomes an
//! `AddPlayer` request for the connection handler.

use vstd::prelude::*;

verus! {

/// A request to admit one remote player, carrying the decoded offer
/// payload.
pub struct AddPlayer(pub String);

impl AddPlayer {
    /// The decoded offer payload this request carries.
    pub fn payload(&self) -> (r: &String)
        ensures
            r == self.0,
    {
        &self.0
    }
}

} // verus!
