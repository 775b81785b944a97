use vstd::prelude::*;

verus! {

/// Identifier of a user account (the 128 bits of its UUID).
pub type UserId = u128;

/// Identifier of a session (the 128 bits of its UUID).
pub type SessionId = u128;

/// A SHA-256 digest, split into its two 128-bit halves.
///
/// Refresh tokens and MFA recovery codes are only ever stored as such digests.
#[derive(Debug, Clone, Copy, PartialEq, Eq, Structural)]
pub struct TokenHash {
    pub hi: u128,
    pub lo: u128,
}

/// A user account, as far as authentication needs to know it.
#[derive(Debug)]
pub struct User {
    pub id: UserId,
    pub name: String,
    pub email: Option<String>,
    pub email_verified: bool,
    pub enabled: bool,
    pub admin: bool,
    /// Whether the account has a password at all.
    pub password_login: bool,
    /// Time of the last successful login, in seconds since the epoch.
    pub last_login: Option<u64>,
}

/// A long-lived session. Exactly one refresh token is live for it at a time,
/// and only the digest of that token is kept.
#[derive(Debug)]
pub struct Session {
    pub id: SessionId,
    pub user_id: UserId,
    pub device_name: Option<String>,
    pub refresh_token_hash: TokenHash,
    pub created_at: u64,
    pub updated_at: u64,
}

/// A copy of an optional text.
pub fn clone_text(o: &Option<String>) -> (r: Option<String>)
    ensures
        r == *o,
{
    match o {
        Some(s) => Some(s.clone()),
        None => None,
    }
}

impl Clone for User {
    fn clone(&self) -> (r: Self)
        ensures
            r == *self,
    {
        User {
            id: self.id,
            name: self.name.clone(),
            email: clone_text(&self.email),
            email_verified: self.email_verified,
            enabled: self.enabled,
            admin: self.admin,
            password_login: self.password_login,
            last_login: self.last_login,
        }
    }
}

impl Clone for Session {
    fn clone(&self) -> (r: Self)
        ensures
            r == *self,
    {
        Session {
            id: self.id,
            user_id: self.user_id,
            device_name: clone_text(&self.device_name),
            refresh_token_hash: self.refresh_token_hash,
            created_at: self.created_at,
            updated_at: self.updated_at,
        }
    }
}

/// The identity proven by a verified access token. Never persisted.
#[derive(Debug, Clone, Copy, PartialEq, Eq, Structural)]
pub struct Authentication {
    pub user_id: UserId,
    pub session_id: SessionId,
    pub admin: bool,
    pub email_verified: bool,
}

/// A user id, or "the authenticated user".
#[derive(Debug, Clone, Copy, PartialEq, Eq, Structural)]
pub enum UserIdOrSelf {
    UserId(UserId),
    Slf,
}

impl UserIdOrSelf {
    pub open spec fn resolved(self, current: UserId) -> UserId {
        match self {
            UserIdOrSelf::UserId(id) => id,
            UserIdOrSelf::Slf => current,
        }
    }

    /// The id this stands for, given the id of the authenticated user.
    pub fn unwrap_or(self, current: UserId) -> (r: UserId)
        ensures
            r == self.resolved(current),
    {
        match self {
            UserIdOrSelf::UserId(id) => id,
            UserIdOrSelf::Slf => current,
        }
    }
}

#[derive(Debug, Clone, Copy, PartialEq, Eq, Structural)]
pub enum AuthenticateError {
    InvalidToken,
}

#[derive(Debug, Clone, Copy, PartialEq, Eq, Structural)]
pub enum AuthorizeError {
    Admin,
    EmailVerified,
}

#[derive(Debug, Clone, Copy, PartialEq, Eq, Structural)]
pub enum AuthError {
    Authenticate(AuthenticateError),
    Authorize(AuthorizeError),
}

impl Authentication {
    /// Succeeds only for an administrator.
    pub fn ensure_admin(&self) -> (r: Result<(), AuthorizeError>)
        ensures
            r is Ok <==> self.admin,
            r is Err ==> r == Err::<(), AuthorizeError>(AuthorizeError::Admin),
    {
        if self.admin {
            Ok(())
        } else {
            Err(AuthorizeError::Admin)
        }
    }

    /// Succeeds when acting on oneself, or as an administrator.
    pub fn ensure_self_or_admin(&self, user_id: UserId) -> (r: Result<(), AuthorizeError>)
        ensures
            r is Ok <==> (self.user_id == user_id || self.admin),
            r is Err ==> r == Err::<(), AuthorizeError>(AuthorizeError::Admin),
    {
        if self.user_id == user_id {
            Ok(())
        } else {
            self.ensure_admin()
        }
    }

    /// Succeeds only for a user whose email address is verified.
    pub fn ensure_email_verified(&self) -> (r: Result<(), AuthorizeError>)
        ensures
            r is Ok <==> self.email_verified,
            r is Err ==> r == Err::<(), AuthorizeError>(AuthorizeError::EmailVerified),
    {
        if self.email_verified {
            Ok(())
        } else {
            Err(AuthorizeError::EmailVerified)
        }
    }
}

/// Which backing services answer.
#[derive(Debug, Clone, Copy, PartialEq, Eq, Structural)]
pub struct HealthStatus {
    pub database: bool,
    pub cache: bool,
    pub email: bool,
}

/// `now + ttl`, or the largest time when that does not fit.
pub open spec fn expiry(now: u64, ttl: u64) -> u64 {
    if now as int + ttl as int > u64::MAX as int {
        u64::MAX
    } else {
        (now + ttl) as u64
    }
}

pub fn compute_expiry(now: u64, ttl: u64) -> (r: u64)
    ensures
        r == expiry(now, ttl),
{
    if now > u64::MAX - ttl {
        u64::MAX
    } else {
        now + ttl
    }
}

} // verus!
