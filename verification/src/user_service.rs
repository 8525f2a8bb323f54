//! The user service: the caller-facing contract over the user store.

use vstd::prelude::*;

use crate::error::AppError;
use crate::models::User;
use crate::user_repository::UserRepositoryImpl;

verus! {

/// A service facade over [`UserRepositoryImpl`].
pub struct UserServiceImpl {
    pub user_repository: UserRepositoryImpl,
}

impl UserServiceImpl {
    pub fn new(user_repository: UserRepositoryImpl) -> (r: Self)
        ensures
            r.user_repository == user_repository,
    {
        UserServiceImpl { user_repository }
    }

    /// Every user row, in storage order.
    pub fn get_all_users(&self) -> (r: Result<Vec<User>, AppError>)
        ensures
            r matches Ok(users) && users@ == self.user_repository.users@,
    {
        Ok(self.user_repository.get_all_users())
    }
}

} // verus!
