//! Registration and password login: bcrypt for password hashes and a signed
//! token (HS256) handed back on success.
//!
//! The two outside primitives — the bcrypt hash/verify pair and the token
//! signer — enter through trusted wrappers; everything around them is
//! verified.

use vstd::prelude::*;

use crate::error::AppError;
use crate::models::{AuthResponse, LoginRequest, RegisterRequest};
use crate::user_repository::{username_exists, UserRepositoryImpl};

verus! {

/// What `bcrypt::verify` answers for a password and a stored hash string:
/// a function of the two arguments alone (the hash string embeds the salt
/// and cost that the check re-runs).
pub uninterp spec fn bcrypt_accepts(password: Seq<char>, hash: Seq<char>) -> bool;

/// What `jsonwebtoken::encode` returns for the claims `{sub, exp}` signed
/// HS256 with `secret`: a function of the three arguments alone.
pub uninterp spec fn jwt_of(sub: int, exp: int, secret: Seq<char>) -> Seq<char>;

/// Relies on `bcrypt::hash`: the salt is drawn fresh, so no two calls need
/// to agree, but `bcrypt::verify` accepts the password against every hash
/// it returns (the returned string embeds its own salt and cost).
#[verifier::external_body]
fn bcrypt_hash(password: &str, cost: u32) -> (r: Option<String>)
    ensures
        r matches Some(h) ==> bcrypt_accepts(password@, h@),
{
    bcrypt::hash(password, cost).ok()
}

/// Relies on `bcrypt::verify`: deterministic in the password and the hash;
/// `None` when the stored hash is malformed.
#[verifier::external_body]
fn bcrypt_verify(password: &str, hash: &str) -> (r: Option<bool>)
    ensures
        r matches Some(b) ==> b == bcrypt_accepts(password@, hash@),
{
    bcrypt::verify(password, hash).ok()
}

/// Relies on `jsonwebtoken::encode` under its default (HS256) header:
/// HMAC-SHA256 over a canonical serialization of the claims, deterministic
/// in the claims and the secret.
#[verifier::external_body]
fn jwt_encode(sub: i32, exp: u64, secret: &str) -> (r: Option<String>)
    ensures
        r matches Some(t) ==> t@ == jwt_of(sub as int, exp as int, secret@),
{
    let mut claims = serde_json::Map::new();
    claims.insert("sub".to_string(), serde_json::Value::from(sub));
    claims.insert("exp".to_string(), serde_json::Value::from(exp));
    jsonwebtoken::encode(
        &jsonwebtoken::Header::default(),
        &serde_json::Value::Object(claims),
        &jsonwebtoken::EncodingKey::from_secret(secret.as_bytes()),
    ).ok()
}

/// Relies on `std::time::SystemTime::now`: the seconds since the Unix
/// epoch, or zero on a clock set before it.  Nothing is promised of a
/// clock reading.
#[verifier::external_body]
fn now_unix_secs() -> u64 {
    std::time::SystemTime::now()
        .duration_since(std::time::UNIX_EPOCH)
        .map(|d| d.as_secs())
        .unwrap_or(0)
}

/// The work cost handed to bcrypt when hashing a new password.
pub const HASH_COST: u32 = 10;

/// The lifetime of an issued token, in seconds.
pub const TOKEN_LIFETIME_SECS: u64 = 3600;

/// `post` is `pre` with exactly one user appended, registered from `req`:
/// the new row carries the requested username and email, a password hash
/// that bcrypt accepts the requested password against, and the generated id.
pub open spec fn registered(
    pre: UserRepositoryImpl,
    post: UserRepositoryImpl,
    req: RegisterRequest,
) -> bool {
    &&& post.users@.len() == pre.users@.len() + 1
    &&& post.users@ == pre.users@.push(post.users@.last())
    &&& post.users@.last().id == pre.next_user_id
    &&& post.users@.last().username@ == req.username@
    &&& post.users@.last().email@ == req.email@
    &&& bcrypt_accepts(req.password@, post.users@.last().password_hash@)
    &&& post.next_user_id == pre.next_user_id + 1
}

/// The authentication service: a user store plus the token-signing secret.
pub struct AuthServiceImpl {
    pub user_repository: UserRepositoryImpl,
    pub jwt_secret: String,
}

impl AuthServiceImpl {
    pub fn new(user_repository: UserRepositoryImpl, jwt_secret: String) -> (r: Self)
        ensures
            r.user_repository == user_repository,
            r.jwt_secret == jwt_secret,
    {
        AuthServiceImpl { user_repository, jwt_secret }
    }

    /// A signed token for `user_id`, expiring one token lifetime from now.
    fn generate_token(&self, user_id: i32) -> (r: Result<String, AppError>)
        ensures
            r matches Ok(t) ==> exists|exp: int|
                t@ == #[trigger] jwt_of(user_id as int, exp, self.jwt_secret@),
            r matches Err(e) ==> e == AppError::InternalServerError,
    {
        let now = now_unix_secs();
        let exp = match now.checked_add(TOKEN_LIFETIME_SECS) {
            Some(e) => e,
            None => {
                return Err(AppError::InternalServerError);
            },
        };
        match jwt_encode(user_id, exp, self.jwt_secret.as_str()) {
            Some(t) => {
                assert(t@ == jwt_of(user_id as int, exp as int, self.jwt_secret@));
                Ok(t)
            },
            None => Err(AppError::InternalServerError),
        }
    }

    /// Register a new account: hash the password, insert the user, and
    /// issue a token for the new id.
    ///
    /// A taken username is a constraint violation and changes nothing.  The
    /// insert is not rolled back when only the token signing fails
    /// afterwards: the account then exists and the caller may log in.
    pub fn register(&mut self, req: RegisterRequest) -> (r: Result<AuthResponse, AppError>)
        requires
            old(self).user_repository.wf(),
            old(self).user_repository.next_user_id < i32::MAX,
        ensures
            final(self).user_repository.wf(),
            final(self).jwt_secret == old(self).jwt_secret,
            username_exists(old(self).user_repository.users@, req.username@) ==> r is Err,
            r matches Ok(a) ==> {
                &&& registered(old(self).user_repository, final(self).user_repository, req)
                &&& exists|exp: int|
                    a.token@ == #[trigger] jwt_of(
                        old(self).user_repository.next_user_id as int,
                        exp,
                        old(self).jwt_secret@,
                    )
            },
            r matches Err(e) ==> {
                &&& e == AppError::InternalServerError || e is StorageFailure
                &&& (e is StorageFailure ==> username_exists(
                    old(self).user_repository.users@,
                    req.username@,
                ) && final(self).user_repository == old(self).user_repository)
                &&& (final(self).user_repository == old(self).user_repository || registered(
                    old(self).user_repository,
                    final(self).user_repository,
                    req,
                ))
            },
    {
        let password_hash = match bcrypt_hash(req.password.as_str(), HASH_COST) {
            Some(h) => h,
            None => {
                return Err(AppError::InternalServerError);
            },
        };

        let user = match self.user_repository.create_user(
            req.username.as_str(),
            req.email.as_str(),
            password_hash.as_str(),
        ) {
            Ok(u) => u,
            Err(e) => {
                return Err(e);
            },
        };

        match self.generate_token(user.id) {
            Ok(token) => Ok(AuthResponse { token }),
            Err(e) => Err(e),
        }
    }

    /// Password login: look the user up by username, check the password
    /// against the stored bcrypt hash, and issue a token.
    ///
    /// `NotFound` exactly when the username has no account; `Unauthorized`
    /// when the account exists and bcrypt rejects the password.
    pub fn login(&self, req: LoginRequest) -> (r: Result<AuthResponse, AppError>)
        requires
            self.user_repository.wf(),
        ensures
            (r matches Err(e) && e == AppError::NotFound) <==> !username_exists(
                self.user_repository.users@,
                req.username@,
            ),
            r matches Ok(a) ==> exists|i: int|
                {
                    &&& 0 <= i < self.user_repository.users@.len()
                    &&& (#[trigger] self.user_repository.users@[i]).username@ == req.username@
                    &&& bcrypt_accepts(
                        req.password@,
                        self.user_repository.users@[i].password_hash@,
                    )
                    &&& exists|exp: int|
                        a.token@ == #[trigger] jwt_of(
                            self.user_repository.users@[i].id as int,
                            exp,
                            self.jwt_secret@,
                        )
                },
            (r matches Err(e) && e == AppError::Unauthorized) ==> exists|i: int|
                {
                    &&& 0 <= i < self.user_repository.users@.len()
                    &&& (#[trigger] self.user_repository.users@[i]).username@ == req.username@
                    &&& !bcrypt_accepts(
                        req.password@,
                        self.user_repository.users@[i].password_hash@,
                    )
                },
            r matches Err(e) ==> e == AppError::NotFound || e == AppError::Unauthorized
                || e == AppError::InternalServerError,
    {
        let user = match self.user_repository.get_user_by_username(req.username.as_str()) {
            Ok(u) => u,
            Err(e) => {
                return Err(e);
            },
        };

        let ghost gu = user;
        proof {
            let k = choose|k: int|
                0 <= k < self.user_repository.users@.len()
                    && self.user_repository.users@[k] == gu;
        }

        match bcrypt_verify(req.password.as_str(), user.password_hash.as_str()) {
            Some(true) => {
                match self.generate_token(user.id) {
                    Ok(token) => Ok(AuthResponse { token }),
                    Err(e) => Err(e),
                }
            },
            Some(false) => Err(AppError::Unauthorized),
            None => Err(AppError::InternalServerError),
        }
    }
}

} // verus!
