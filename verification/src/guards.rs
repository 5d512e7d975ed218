//! The guard chain: authentication, then authorization.
//!
//! An inbound protected request passes the authentication guard first —
//! header to token, token to session binding, binding to user record — and,
//! where the route demands elevated privilege, the authorization guard on
//! top of it.  Each guard returns a classified outcome: an identity, or a
//! rejection that says exactly why.  Both guards are read-only over their
//! stores, so re-evaluation under unchanged state repeats the outcome.

use vstd::prelude::*;
use crate::credentials::{extract_credential, spec_credential};
use crate::models::{code_is_qualifying, is_qualifying, Role, RoleCode, User};
use crate::repository::{spec_find_user, spec_roles_of, RoleDirectory, UserDirectory};
use crate::session::{spec_session_key, session_key, SessionLookup, SessionStore};

verus! {

/// Why a guard turned a request away.
///
/// `Unauthenticated` — no valid, live session could be resolved from the
/// request.  `Unauthorized` — a valid identity lacks a qualifying role.
/// `InternalError` — a collaborator faulted; the request can be retried.
#[derive(Clone, Copy, PartialEq, Eq, Structural, Debug)]
pub enum AuthError {
    Unauthenticated,
    Unauthorized,
    InternalError,
}

/// The identity the authorization guard produces: a user proven to hold a
/// qualifying role.
pub struct EditorUser(pub User);

/// The view of an optional header value.
pub open spec fn spec_header_view(header: Option<&str>) -> Option<Seq<char>> {
    match header {
        Some(h) => Some(h@),
        None => None,
    }
}

/// The authentication decision, over the store and directory state: the
/// resolved user, or the classified rejection.
pub open spec fn spec_authenticate(
    header: Option<Seq<char>>,
    store: SessionStore,
    users: UserDirectory,
) -> Result<User, AuthError> {
    match header {
        None => Err(AuthError::Unauthenticated),
        Some(h) => match spec_credential(h) {
            None => Err(AuthError::Unauthenticated),
            Some(token) => match store.spec_get(spec_session_key(token)) {
                SessionLookup::Fault => Err(AuthError::InternalError),
                SessionLookup::Absent => Err(AuthError::Unauthenticated),
                SessionLookup::Found(user_id) => match spec_find_user(users.records(), user_id) {
                    None => Err(AuthError::Unauthenticated),
                    Some(user) => Ok(user),
                },
            },
        },
    }
}

/// The decision on a session-store read: the bound user id to continue
/// with, or the classified rejection.
pub open spec fn spec_session_decision(lookup: SessionLookup) -> Result<i32, AuthError> {
    match lookup {
        SessionLookup::Found(user_id) => Ok(user_id),
        SessionLookup::Absent => Err(AuthError::Unauthenticated),
        SessionLookup::Fault => Err(AuthError::InternalError),
    }
}

/// Classify a session-store read.  An absent binding is a definitive
/// negative; a fault is not, and stays distinguishable.
pub fn session_decision(lookup: SessionLookup) -> (r: Result<i32, AuthError>)
    ensures
        r == spec_session_decision(lookup),
{
    match lookup {
        SessionLookup::Found(user_id) => Ok(user_id),
        SessionLookup::Absent => Err(AuthError::Unauthenticated),
        SessionLookup::Fault => Err(AuthError::InternalError),
    }
}

/// The decision on a user lookup: the resolved user, or the rejection of a
/// stale session that binds to nobody.
pub open spec fn spec_user_decision(found: Option<User>) -> Result<User, AuthError> {
    match found {
        Some(user) => Ok(user),
        None => Err(AuthError::Unauthenticated),
    }
}

/// Classify a user lookup.
pub fn user_decision(found: Option<User>) -> (r: Result<User, AuthError>)
    ensures
        r == spec_user_decision(found),
{
    match found {
        Some(user) => Ok(user),
        None => Err(AuthError::Unauthenticated),
    }
}

/// The authentication guard.  `header` is the raw authorization header of
/// the request, if it carried one.
///
/// A missing or malformed header, an absent or expired session binding, and
/// a stale binding to no existing user are all definitive negatives —
/// `Unauthenticated`.  A session-store connectivity fault is not a
/// negative: it surfaces as `InternalError`.  The guard reads and never
/// writes.
pub fn authenticate(
    header: Option<&str>,
    store: &SessionStore,
    users: &UserDirectory,
) -> (r: Result<User, AuthError>)
    ensures
        r == spec_authenticate(spec_header_view(header), *store, *users),
{
    let value = match header {
        Some(v) => v,
        None => {
            return Err(AuthError::Unauthenticated);
        },
    };
    let token = match extract_credential(value) {
        Some(t) => t,
        None => {
            return Err(AuthError::Unauthenticated);
        },
    };
    let key = session_key(token.as_str());
    match session_decision(store.get(key.as_str())) {
        Err(e) => Err(e),
        Ok(user_id) => user_decision(users.find(user_id)),
    }
}

/// Whether a role sequence holds at least one qualifying role.
pub open spec fn spec_any_qualifying(roles: Seq<Role>) -> bool {
    exists|i: int| 0 <= i < roles.len() && is_qualifying(roles[i].code)
}

/// Runtime test for [`spec_any_qualifying`].
pub fn any_qualifying(roles: &Vec<Role>) -> (r: bool)
    ensures
        r == spec_any_qualifying(roles@),
{
    let n = roles.len();
    let mut i: usize = 0;
    while i < n
        invariant
            n == roles.len(),
            i <= n,
            forall|j: int| 0 <= j < i ==> !is_qualifying((#[trigger] roles@[j]).code),
        decreases n - i,
    {
        if code_is_qualifying(roles[i].code) {
            return true;
        }
        i = i + 1;
    }
    false
}

/// The decision on a role query for an authenticated user: the privileged
/// identity, or the classified rejection.
pub open spec fn spec_roles_decision(
    user: User,
    query: Result<Seq<Role>, ()>,
) -> Result<EditorUser, AuthError> {
    match query {
        Err(_) => Err(AuthError::InternalError),
        Ok(held) => {
            if spec_any_qualifying(held) {
                Ok(EditorUser(user))
            } else {
                Err(AuthError::Unauthorized)
            }
        },
    }
}

/// Classify a role query.  A failed query is an internal error, never an
/// empty role set; a returned role set qualifies exactly when one held
/// role is qualifying.
pub fn roles_decision(user: User, query: Result<Vec<Role>, ()>) -> (r: Result<
    EditorUser,
    AuthError,
>)
    ensures
        r == spec_roles_decision(
            user,
            match query {
                Ok(held) => Ok(held@),
                Err(()) => Err(()),
            },
        ),
{
    match query {
        Err(()) => Err(AuthError::InternalError),
        Ok(held) => {
            if any_qualifying(&held) {
                Ok(EditorUser(user))
            } else {
                Err(AuthError::Unauthorized)
            }
        },
    }
}

/// The authorization decision, on top of an authentication outcome: the
/// privileged identity, or the classified rejection.
pub open spec fn spec_authorize(
    auth: Result<User, AuthError>,
    roles: RoleDirectory,
) -> Result<EditorUser, AuthError> {
    match auth {
        Err(e) => Err(e),
        Ok(user) => {
            if !roles.is_connected() {
                Err(AuthError::InternalError)
            } else if spec_any_qualifying(spec_roles_of(roles.rows(), user.id)) {
                Ok(EditorUser(user))
            } else {
                Err(AuthError::Unauthorized)
            }
        },
    }
}

/// The authorization guard.  `auth` is the authentication guard's outcome
/// for the same request.
///
/// A failed authentication is propagated unchanged — in particular it is
/// never downgraded to `Unauthorized`, and no role evaluation happens for
/// it.  For an authenticated user, a role-repository fault surfaces as
/// `InternalError`; otherwise the user qualifies exactly when one held role
/// is qualifying, and an empty or non-qualifying role set is turned away
/// with `Unauthorized`.  The guard reads and never writes.
pub fn authorize(
    auth: Result<User, AuthError>,
    roles: &RoleDirectory,
) -> (r: Result<EditorUser, AuthError>)
    ensures
        r == spec_authorize(auth, *roles),
{
    let user = match auth {
        Err(e) => {
            return Err(e);
        },
        Ok(u) => u,
    };
    let query = roles.find_by_user(user.id);
    roles_decision(user, query)
}

/// The whole chain for a route that demands elevated privilege: the
/// authentication guard completes first, and the authorization guard runs
/// on its outcome.  Routes that only demand an identity use
/// [`authenticate`] alone.
pub fn require_editor(
    header: Option<&str>,
    store: &SessionStore,
    users: &UserDirectory,
    roles: &RoleDirectory,
) -> (r: Result<EditorUser, AuthError>)
    ensures
        r == spec_authorize(
            spec_authenticate(spec_header_view(header), *store, *users),
            *roles,
        ),
{
    let auth = authenticate(header, store, users);
    authorize(auth, roles)
}

/// A live session binding to an existing user authenticates as exactly that
/// user: whenever the header carries a token, the store binds the token's
/// key to a user id, and the directory holds a user under that id, the
/// authentication decision is that user, and no other.
pub proof fn lemma_live_session_resolves_user(
    h: Seq<char>,
    store: SessionStore,
    users: UserDirectory,
    token: Seq<char>,
    user_id: i32,
    user: User,
)
    requires
        spec_credential(h) == Some(token),
        store.spec_get(spec_session_key(token)) == SessionLookup::Found(user_id),
        spec_find_user(users.records(), user_id) == Some(user),
    ensures
        spec_authenticate(Some(h), store, users) == Ok::<User, AuthError>(user),
{
}

/// A token absent from the session store — never issued, or past its
/// lifetime — is turned away as `Unauthenticated`.
pub proof fn lemma_absent_session_rejects(
    h: Seq<char>,
    store: SessionStore,
    users: UserDirectory,
    token: Seq<char>,
)
    requires
        spec_credential(h) == Some(token),
        store.spec_get(spec_session_key(token)) == SessionLookup::Absent,
    ensures
        spec_authenticate(Some(h), store, users)
            == Err::<User, AuthError>(AuthError::Unauthenticated),
{
}

/// A missing or malformed header is turned away as `Unauthenticated`, and
/// the store and directory are never consulted: the decision is the same
/// whatever state they are in.
pub proof fn lemma_malformed_header_rejects(
    header: Option<Seq<char>>,
    store_a: SessionStore,
    users_a: UserDirectory,
    store_b: SessionStore,
    users_b: UserDirectory,
)
    requires
        header matches Some(h) ==> spec_credential(h) is None,
    ensures
        spec_authenticate(header, store_a, users_a)
            == Err::<User, AuthError>(AuthError::Unauthenticated),
        spec_authenticate(header, store_a, users_a)
            == spec_authenticate(header, store_b, users_b),
{
}

/// Role membership decides authorization: with the role repository
/// reachable, an authenticated user is authorized exactly when one of the
/// roles joined to it is qualifying, and is otherwise turned away as
/// `Unauthorized` — an empty role set qualifies for nothing.
pub proof fn lemma_role_membership_decides(user: User, roles: RoleDirectory)
    requires
        roles.is_connected(),
    ensures
        spec_any_qualifying(spec_roles_of(roles.rows(), user.id))
            ==> spec_authorize(Ok(user), roles)
                == Ok::<EditorUser, AuthError>(EditorUser(user)),
        !spec_any_qualifying(spec_roles_of(roles.rows(), user.id))
            ==> spec_authorize(Ok(user), roles)
                == Err::<EditorUser, AuthError>(AuthError::Unauthorized),
{
}

/// The qualifying test is an intersection test: a role sequence qualifies
/// exactly when some held role's code lies in the set of Admin and Editor.
pub proof fn lemma_qualifying_is_intersection(roles: Seq<Role>)
    ensures
        spec_any_qualifying(roles) <==> (exists|i: int|
            0 <= i < roles.len() && set![RoleCode::Admin, RoleCode::Editor].contains(
                (#[trigger] roles[i]).code,
            )),
{
    assert(forall|i: int| 0 <= i < roles.len() ==> (is_qualifying((#[trigger] roles[i]).code)
        <==> set![RoleCode::Admin, RoleCode::Editor].contains(roles[i].code)));
}

/// Without a successful authentication no role evaluation takes place:
/// the authorization guard propagates the authentication rejection
/// unchanged — in particular, an unauthenticated request always stays
/// `Unauthenticated` and is never answered with `Unauthorized`.
pub proof fn lemma_unauthenticated_propagates(e: AuthError, roles: RoleDirectory)
    ensures
        spec_authorize(Err(e), roles) == Err::<EditorUser, AuthError>(e),
        spec_authorize(Err(AuthError::Unauthenticated), roles)
            != Err::<EditorUser, AuthError>(AuthError::Unauthorized),
{
}

/// Both guards are idempotent: two evaluations over the same header, the
/// same stores and the same prior outcome classify the request the same
/// way.  (The guards are read-only, so the state is indeed unchanged by
/// the first evaluation.)
pub proof fn lemma_guards_idempotent(
    header: Option<Seq<char>>,
    store: SessionStore,
    users: UserDirectory,
    roles: RoleDirectory,
    first: Result<User, AuthError>,
    second: Result<User, AuthError>,
)
    requires
        first == spec_authenticate(header, store, users),
        second == spec_authenticate(header, store, users),
    ensures
        first == second,
        spec_authorize(first, roles) == spec_authorize(second, roles),
{
}

} // verus!
