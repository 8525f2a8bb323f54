//! The persistence gateway for user accounts.

use vstd::prelude::*;

use crate::error::AppError;
use crate::models::User;

verus! {

/// Primary-key uniqueness of the user relation.
pub open spec fn user_ids_unique(s: Seq<User>) -> bool {
    forall|i: int, j: int| 0 <= i < j < s.len()
        ==> (#[trigger] s[i]).id != (#[trigger] s[j]).id
}

/// The unique constraint on the username column.
pub open spec fn usernames_unique(s: Seq<User>) -> bool {
    forall|i: int, j: int| 0 <= i < j < s.len()
        ==> (#[trigger] s[i]).username@ != (#[trigger] s[j]).username@
}

pub open spec fn username_exists(s: Seq<User>, username: Seq<char>) -> bool {
    exists|i: int| 0 <= i < s.len() && (#[trigger] s[i]).username@ == username
}

/// The relational store behind the user operations; `next_user_id` is the
/// generated primary-key sequence.
pub struct UserRepositoryImpl {
    pub users: Vec<User>,
    pub next_user_id: i32,
}

impl UserRepositoryImpl {
    /// Well-formedness: ids unique and below the generator, usernames unique.
    pub open spec fn wf(self) -> bool {
        &&& 1 <= self.next_user_id
        &&& user_ids_unique(self.users@)
        &&& usernames_unique(self.users@)
        &&& forall|i: int| 0 <= i < self.users@.len()
            ==> 1 <= (#[trigger] self.users@[i]).id < self.next_user_id
    }

    /// An empty store.
    pub fn new() -> (r: Self)
        ensures
            r.wf(),
            r.users@ == Seq::<User>::empty(),
            r.next_user_id == 1,
    {
        UserRepositoryImpl { users: Vec::new(), next_user_id: 1 }
    }

    /// Insert a user row under a freshly generated id and return it.  The
    /// unique constraint on usernames makes a duplicate username a
    /// constraint violation.
    #[verifier::loop_isolation(false)]
    pub fn create_user(&mut self, username: &str, email: &str, password_hash: &str) -> (r: Result<
        User,
        AppError,
    >)
        requires
            old(self).wf(),
            old(self).next_user_id < i32::MAX,
        ensures
            final(self).wf(),
            r is Ok <==> !username_exists(old(self).users@, username@),
            r matches Ok(u) ==> {
                &&& u.id == old(self).next_user_id
                &&& u.username@ == username@
                &&& u.email@ == email@
                &&& u.password_hash@ == password_hash@
                &&& final(self).users@ == old(self).users@.push(u)
                &&& final(self).next_user_id == old(self).next_user_id + 1
            },
            r is Err ==> *final(self) == *old(self),
            r matches Err(e) ==> e matches AppError::StorageFailure(_),
    {
        let uname: String = username.to_owned();
        let mut i: usize = 0;
        while i < self.users.len()
            invariant
                i <= self.users.len(),
                forall|k: int| 0 <= k < i ==> (#[trigger] self.users@[k]).username@ != username@,
                *self == *old(self),
            decreases self.users.len() - i,
        {
            if self.users[i].username == uname {
                return Err(AppError::StorageFailure(
                    "unique constraint violation: username is taken".to_owned(),
                ));
            }
            i = i + 1;
        }

        let user = User {
            id: self.next_user_id,
            username: uname,
            email: email.to_owned(),
            password_hash: password_hash.to_owned(),
        };
        let ret = user.clone();
        self.users.push(user);
        self.next_user_id = self.next_user_id + 1;
        Ok(ret)
    }

    /// The user carrying `username`; `NotFound` exactly when no row does.
    #[verifier::loop_isolation(false)]
    pub fn get_user_by_username(&self, username: &str) -> (r: Result<User, AppError>)
        ensures
            r is Ok <==> username_exists(self.users@, username@),
            r matches Ok(u) ==> self.users@.contains(u) && u.username@ == username@,
            r matches Err(e) ==> e == AppError::NotFound,
    {
        let uname: String = username.to_owned();
        let mut i: usize = 0;
        while i < self.users.len()
            invariant
                i <= self.users.len(),
                forall|k: int| 0 <= k < i ==> (#[trigger] self.users@[k]).username@ != username@,
            decreases self.users.len() - i,
        {
            if self.users[i].username == uname {
                let u = self.users[i].clone();
                assert(self.users@.contains(self.users@[i as int]));
                return Ok(u);
            }
            i = i + 1;
        }
        Err(AppError::NotFound)
    }

    /// Every user row, in storage order.
    #[verifier::loop_isolation(false)]
    pub fn get_all_users(&self) -> (r: Vec<User>)
        ensures
            r@ == self.users@,
    {
        let mut out: Vec<User> = Vec::new();
        let mut i: usize = 0;
        while i < self.users.len()
            invariant
                i <= self.users.len(),
                out@ == self.users@.take(i as int),
            decreases self.users.len() - i,
        {
            out.push(self.users[i].clone());
            assert(self.users@.take(i + 1) =~= self.users@.take(i as int).push(
                self.users@[i as int],
            ));
            i = i + 1;
        }
        assert(self.users@.take(self.users@.len() as int) =~= self.users@);
        out
    }
}

} // verus!
