//! Decision rules of the authentication collaborator: which looked-up user
//! may log in, what claims a token carries, and which role may perform an
//! operation. Credential storage, hashing and token encoding stay with the
//! surrounding collaborator; the core only decides, on plain values.

use vstd::prelude::*;

verus! {

/// Seconds a freshly issued token stays valid: one day.
pub const TOKEN_LIFETIME_SECONDS: i64 = 86400;

#[derive(Clone, Copy, PartialEq, Eq, Structural, Debug)]
pub enum UserRole {
    Admin,
    Regular,
}

#[derive(Clone, Copy, PartialEq, Eq, Structural, Debug)]
pub enum UserStatus {
    Active,
    Inactive,
    Suspended,
}

/// An account, as the core reads it: identity, role and standing. The
/// stored credential and profile data stay with the storage collaborator.
#[derive(Debug)]
pub struct User {
    pub id: u64,
    pub email: String,
    pub role: UserRole,
    pub status: UserStatus,
}

impl Clone for User {
    fn clone(&self) -> (r: User)
        ensures
            r == *self,
    {
        User { id: self.id, email: self.email.clone(), role: self.role, status: self.status }
    }
}

/// What an issued token asserts about its bearer.
#[derive(Debug)]
pub struct Claims {
    /// The user's id.
    pub sub: u64,
    pub email: String,
    pub role: UserRole,
    /// Expiry as a timestamp.
    pub exp: i64,
}

impl Clone for Claims {
    fn clone(&self) -> (r: Claims)
        ensures
            r == *self,
    {
        Claims { sub: self.sub, email: self.email.clone(), role: self.role, exp: self.exp }
    }
}

/// Why a login was refused, kept apart so the collaborator can render the
/// two cases differently.
#[derive(Clone, Copy, PartialEq, Eq, Structural, Debug)]
pub enum AuthReason {
    /// The credentials matched no account.
    InvalidCredentials,
    /// The account exists but is not active.
    AccountNotActive,
}

/// Why an authentication or authorization request was refused.
#[derive(Clone, Copy, PartialEq, Eq, Structural, Debug)]
pub enum UserError {
    /// The caller could not be authenticated, for the carried reason.
    AuthError(AuthReason),
    /// The caller is authenticated but lacks the required role.
    AuthzError,
    /// The persistence collaborator failed; safe to retry. The verified
    /// core never raises this itself.
    StorageUnavailable,
}

/// A login attempt as the collaborator hands it in, already deserialized.
#[derive(Debug)]
pub struct LoginRequest {
    pub email: String,
    pub password: String,
}

/// A registration request as the collaborator hands it in.
#[derive(Debug)]
pub struct RegisterRequest {
    pub email: String,
    pub password: String,
    pub role: UserRole,
}

/// Decide a login from the credential lookup's result: the user the storage
/// collaborator found under the given email and password, if any.
///
/// Only an active account may log in; a found but inactive or suspended
/// account is refused as not active, a failed lookup as bad credentials.
pub fn login(user: Option<User>) -> (r: Result<User, UserError>)
    ensures
        user is Some && user.unwrap().status == UserStatus::Active ==> r == Ok::<
            User,
            UserError,
        >(user.unwrap()),
        user is Some && user.unwrap().status != UserStatus::Active ==> r == Err::<
            User,
            UserError,
        >(UserError::AuthError(AuthReason::AccountNotActive)),
        user is None ==> r == Err::<User, UserError>(
            UserError::AuthError(AuthReason::InvalidCredentials),
        ),
{
    match user {
        Some(user) => {
            if matches!(user.status, UserStatus::Active) {
                Ok(user)
            } else {
                Err(UserError::AuthError(AuthReason::AccountNotActive))
            }
        },
        None => Err(UserError::AuthError(AuthReason::InvalidCredentials)),
    }
}

/// The claims a fresh token for `user` carries, expiring one day after
/// `now`. `now` is supplied by the clock collaborator.
pub fn claims_for(user: &User, now: i64) -> (r: Claims)
    requires
        now <= i64::MAX - TOKEN_LIFETIME_SECONDS,
    ensures
        r.sub == user.id,
        r.email == user.email,
        r.role == user.role,
        r.exp == now + TOKEN_LIFETIME_SECONDS,
{
    Claims {
        sub: user.id,
        email: user.email.clone(),
        role: user.role,
        exp: now + TOKEN_LIFETIME_SECONDS,
    }
}

/// Authorization rule: an admin may do anything; a regular caller may do
/// only what asks for the regular role.
pub fn require_auth(claims: Claims, required_role: UserRole) -> (r: Result<Claims, UserError>)
    ensures
        claims.role == UserRole::Admin ==> r == Ok::<Claims, UserError>(claims),
        claims.role == UserRole::Regular && required_role == UserRole::Regular ==> r == Ok::<
            Claims,
            UserError,
        >(claims),
        claims.role == UserRole::Regular && required_role == UserRole::Admin ==> r == Err::<
            Claims,
            UserError,
        >(UserError::AuthzError),
{
    match claims.role {
        UserRole::Admin => Ok(claims),
        UserRole::Regular => {
            if matches!(required_role, UserRole::Regular) {
                Ok(claims)
            } else {
                Err(UserError::AuthzError)
            }
        },
    }
}

} // verus!
