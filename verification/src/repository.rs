//! The identity and role repositories: read-only views of durable storage.
//!
//! The guards consume two narrow interfaces — `find` a user by id, and
//! `find_by_user` the roles joined to a user.  These in-memory directories
//! carry exactly those interfaces over plain records, so the guard chain can
//! be exercised against deterministic storage; the role directory can also
//! inject a storage fault, which the authorization guard must surface as an
//! internal error rather than as an empty role set.

use vstd::prelude::*;
use crate::models::{Role, User};

verus! {

/// First user with the given id, scanning in order.
pub open spec fn spec_find_user(users: Seq<User>, id: i32) -> Option<User>
    decreases users.len(),
{
    if users.len() == 0 {
        None
    } else if users[0].id == id {
        Some(users[0])
    } else {
        spec_find_user(users.skip(1), id)
    }
}

proof fn lemma_find_user_none(users: Seq<User>, id: i32)
    requires
        forall|j: int| 0 <= j < users.len() ==> (#[trigger] users[j]).id != id,
    ensures
        spec_find_user(users, id) is None,
    decreases users.len(),
{
    if users.len() > 0 {
        lemma_find_user_none(users.skip(1), id);
    }
}

proof fn lemma_find_user_at(users: Seq<User>, id: i32, i: int)
    requires
        0 <= i < users.len(),
        forall|j: int| 0 <= j < i ==> (#[trigger] users[j]).id != id,
        users[i].id == id,
    ensures
        spec_find_user(users, id) == Some(users[i]),
    decreases i,
{
    if i > 0 {
        lemma_find_user_at(users.skip(1), id, i - 1);
    }
}

/// An in-memory user repository.
pub struct UserDirectory {
    users: Vec<User>,
}

impl UserDirectory {
    /// The user records the directory holds, in insertion order.
    pub closed spec fn records(self) -> Seq<User> {
        self.users@
    }

    /// Every record the directory holds is well-formed: the provisioning
    /// path never stores an empty username.
    pub open spec fn wf(self) -> bool {
        forall|i: int| 0 <= i < self.records().len() ==> (#[trigger] self.records()[i]).wf()
    }

    /// An empty directory.
    pub fn new() -> (d: Self)
        ensures
            d.records() == Seq::<User>::empty(),
            d.wf(),
    {
        let d = UserDirectory { users: Vec::new() };
        proof {
            assert(d.records() =~= Seq::<User>::empty());
        }
        d
    }

    /// Add a user record.
    pub fn insert(&mut self, user: User)
        requires
            user.wf(),
        ensures
            final(self).records() == old(self).records() + seq![user],
            old(self).wf() ==> final(self).wf(),
    {
        self.users.push(user);
        proof {
            assert forall|i: int| old(self).wf() && 0 <= i < self.records().len()
                implies (#[trigger] self.records()[i]).wf() by {
                if i < old(self).records().len() {
                    assert(old(self).records()[i].wf());
                }
            }
        }
    }

    /// Look a user up by id.
    pub fn find(&self, id: i32) -> (r: Option<User>)
        ensures
            r == spec_find_user(self.records(), id),
    {
        let n = self.users.len();
        let mut i: usize = 0;
        while i < n
            invariant
                n == self.users.len(),
                i <= n,
                forall|j: int| 0 <= j < i ==> (#[trigger] self.records()[j]).id != id,
            decreases n - i,
        {
            let u = &self.users[i];
            if u.id == id {
                proof {
                    lemma_find_user_at(self.records(), id, i as int);
                }
                return Some(u.clone());
            }
            i = i + 1;
        }
        proof {
            lemma_find_user_none(self.records(), id);
        }
        None
    }
}

/// The roles joined to `user_id`, in assignment order.
pub open spec fn spec_roles_of(assignments: Seq<(i32, Role)>, user_id: i32) -> Seq<Role>
    decreases assignments.len(),
{
    if assignments.len() == 0 {
        Seq::empty()
    } else if assignments[0].0 == user_id {
        seq![assignments[0].1] + spec_roles_of(assignments.skip(1), user_id)
    } else {
        spec_roles_of(assignments.skip(1), user_id)
    }
}

/// An in-memory role repository: the many-to-many join between users and
/// roles, one row per assignment, plus injectable connectivity.
pub struct RoleDirectory {
    assignments: Vec<(i32, Role)>,
    connected: bool,
}

impl RoleDirectory {
    /// The join rows the directory holds, in insertion order.
    pub closed spec fn rows(self) -> Seq<(i32, Role)> {
        self.assignments@
    }

    /// Whether queries reach storage at all; when false, every query
    /// reports a fault.
    pub closed spec fn is_connected(self) -> bool {
        self.connected
    }

    /// An empty, reachable directory.
    pub fn new() -> (d: Self)
        ensures
            d.rows() == Seq::<(i32, Role)>::empty(),
            d.is_connected(),
    {
        let d = RoleDirectory { assignments: Vec::new(), connected: true };
        proof {
            assert(d.rows() =~= Seq::<(i32, Role)>::empty());
        }
        d
    }

    /// Assign a role to a user.
    pub fn insert(&mut self, user_id: i32, role: Role)
        ensures
            final(self).rows() == old(self).rows() + seq![(user_id, role)],
            final(self).is_connected() == old(self).is_connected(),
    {
        self.assignments.push((user_id, role));
    }

    /// Sever or restore the directory's connectivity; while severed,
    /// queries fault.
    pub fn set_connected(&mut self, up: bool)
        ensures
            final(self).rows() == old(self).rows(),
            final(self).is_connected() == up,
    {
        self.connected = up;
    }

    /// Query the roles joined to a user.  A fault is a distinct outcome,
    /// never an empty role set.
    pub fn find_by_user(&self, user_id: i32) -> (r: Result<Vec<Role>, ()>)
        ensures
            self.is_connected() ==> (r matches Ok(v)
                && v@ == spec_roles_of(self.rows(), user_id)),
            !self.is_connected() ==> r is Err,
    {
        if !self.connected {
            return Err(());
        }
        let n = self.assignments.len();
        let mut out: Vec<Role> = Vec::new();
        let mut i: usize = 0;
        proof {
            assert(self.rows().skip(0) =~= self.rows());
            assert(out@ + spec_roles_of(self.rows(), user_id)
                =~= spec_roles_of(self.rows(), user_id));
        }
        while i < n
            invariant
                n == self.assignments.len(),
                i <= n,
                spec_roles_of(self.rows(), user_id)
                    =~= out@ + spec_roles_of(self.rows().skip(i as int), user_id),
            decreases n - i,
        {
            let row = &self.assignments[i];
            proof {
                assert(self.rows().skip(i as int).skip(1) =~= self.rows().skip(i as int + 1));
            }
            if row.0 == user_id {
                out.push(row.1);
            }
            i = i + 1;
        }
        proof {
            assert(self.rows().skip(n as int) =~= Seq::<(i32, Role)>::empty());
            assert(out@ + Seq::<Role>::empty() =~= out@);
        }
        Ok(out)
    }
}

} // verus!
