//! Records of the catalog service: identities, roles, and the two catalog
//! entities.
//!
//! Timestamps are carried as whole seconds since the Unix epoch, so that the
//! records hold plain values throughout; the boundary code that talks to
//! durable storage converts its calendar type to and from that number.

use vstd::prelude::*;

verus! {

/// The closed role vocabulary.  Possession of `Admin` or `Editor` grants
/// elevated privilege; `Viewer` does not.
#[derive(Clone, Copy, PartialEq, Eq, Structural, Debug)]
pub enum RoleCode {
    Admin,
    Editor,
    Viewer,
}

/// A role record from durable storage: a stable id and a code out of the
/// closed vocabulary.
#[derive(Clone, Copy, PartialEq, Eq, Structural, Debug)]
pub struct Role {
    pub id: i32,
    pub code: RoleCode,
}

/// A role code qualifies for elevated privilege exactly when it is `Admin`
/// or `Editor`.
pub open spec fn is_qualifying(code: RoleCode) -> bool {
    code == RoleCode::Admin || code == RoleCode::Editor
}

/// Runtime test for [`is_qualifying`].
pub fn code_is_qualifying(code: RoleCode) -> (r: bool)
    ensures
        r == is_qualifying(code),
{
    match code {
        RoleCode::Admin => true,
        RoleCode::Editor => true,
        RoleCode::Viewer => false,
    }
}

/// An identity record: unique id, unique non-empty username, the stored
/// password hash (never exposed outward), and the creation time.  Read-only
/// from the guards' point of view.
pub struct User {
    pub id: i32,
    pub username: String,
    pub password: String,
    pub created_at: i64,
}

impl User {
    /// A well-formed user has a non-empty username.
    pub open spec fn wf(self) -> bool {
        self.username@.len() > 0
    }
}

impl Clone for User {
    fn clone(&self) -> (r: Self)
        ensures
            r == *self,
    {
        User {
            id: self.id,
            username: self.username.clone(),
            password: self.password.clone(),
            created_at: self.created_at,
        }
    }
}

/// A catalog author record.
pub struct Rustacean {
    pub id: i32,
    pub name: String,
    pub email: String,
    pub created_at: i64,
}

/// The fields a caller supplies to create an author record; the id and the
/// creation time are assigned by storage.
pub struct NewRustacean {
    pub name: String,
    pub email: String,
}

/// A catalog crate record.
pub struct Crate {
    pub id: i32,
    pub rustacean_id: i32,
    pub code: String,
    pub name: String,
    pub version: String,
    pub description: Option<String>,
    pub created_at: i64,
}

/// The fields a caller supplies to create a crate record.
pub struct NewCrate {
    pub rustacean_id: i32,
    pub code: String,
    pub name: String,
    pub version: String,
    pub description: Option<String>,
}

} // verus!
