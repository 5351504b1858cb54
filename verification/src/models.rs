//! The data model of the authentication core.
//!
//! A [`User`] is the record that a session token embeds: the token carries
//! a verbatim copy, authoritative for the session's lifetime. Identifiers
//! and text fields are held as UTF-8 bytes, the form in which the codec
//! signs and transports them; the boundary layer converts to its own
//! richer types.

use vstd::prelude::*;

verus! {

/// The role a user holds. Stored and transported as the bare words
/// `Admin` and `User`.
#[derive(Clone, Copy, PartialEq, Eq, Structural, Debug)]
pub enum UserRole {
    Admin,
    User,
}

/// The mathematical value of a [`User`].
pub struct UserModel {
    pub id: Seq<u8>,
    pub name: Seq<u8>,
    pub email: Seq<u8>,
    pub role: UserRole,
}

/// A user record, as a session token embeds it. `id` is the canonical
/// text form of the user's unique identifier; `name` and `email` are
/// UTF-8 text.
#[derive(Debug)]
pub struct User {
    pub id: Vec<u8>,
    pub name: Vec<u8>,
    pub email: Vec<u8>,
    pub role: UserRole,
}

impl View for User {
    type V = UserModel;

    open spec fn view(&self) -> UserModel {
        UserModel {
            id: self.id@,
            name: self.name@,
            email: self.email@,
            role: self.role,
        }
    }
}

/// Copies a byte vector; the copy holds the same bytes.
pub fn clone_bytes(v: &Vec<u8>) -> (r: Vec<u8>)
    ensures
        r@ == v@,
{
    let r = v.clone();
    assert(r@ =~= v@);
    r
}

impl Clone for User {
    fn clone(&self) -> (r: User)
        ensures
            r@ == self@,
    {
        User {
            id: clone_bytes(&self.id),
            name: clone_bytes(&self.name),
            email: clone_bytes(&self.email),
            role: self.role,
        }
    }
}

/// The slice of a user record that may be shown to other users when
/// sharing: the identifier and display name only.
#[derive(Debug)]
pub struct UserForSharing {
    pub id: Vec<u8>,
    pub name: Vec<u8>,
}

impl UserForSharing {
    pub fn from_user(user: User) -> (r: UserForSharing)
        ensures
            r.id@ == user.id@,
            r.name@ == user.name@,
    {
        UserForSharing { id: user.id, name: user.name }
    }
}

} // verus!
