//! The data shapes of the account store. The store itself is an external
//! SQL collaborator; the library only fixes what a repository kind is and
//! what an account row holds.

use vstd::prelude::*;

verus! {

/// Marker for the kind of store a repository handle serves.
pub trait RepoKind {
}

/// The games repository kind.
#[derive(Clone)]
pub struct Game;

impl RepoKind for Game {
}

/// The accounts repository kind.
#[derive(Clone)]
pub struct Account;

impl RepoKind for Account {
}

/// One account row: the unique display name, the contact email, and the
/// PHC-encoded password hash.
pub struct AccountData {
    pub name: String,
    pub email: String,
    pub password_hash: String,
}

} // verus!
