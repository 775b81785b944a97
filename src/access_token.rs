use vstd::prelude::*;

use crate::models::{
    compute_expiry, expiry, Authentication, SessionId, TokenHash, User, UserId,
};

verus! {

/// What an access token carries. Encoding and signing it (and checking the
/// signature of a presented token) happen outside this library: `verify` is
/// handed the claims of a token whose signature checked out, or `None`.
#[derive(Debug, Clone, Copy, PartialEq, Eq, Structural)]
pub struct AccessTokenClaims {
    pub user_id: UserId,
    pub session_id: SessionId,
    pub admin: bool,
    pub email_verified: bool,
    /// Digest of the session's refresh token when the token was issued; the
    /// key of revocation lookups.
    pub refresh_token_hash: TokenHash,
    /// Issue time, in seconds since the epoch.
    pub iat: u64,
    /// Expiry time, in seconds since the epoch.
    pub exp: u64,
}

/// A revocation marker: tokens tied to `refresh_token_hash` are rejected
/// until `expires_at`.
#[derive(Debug, Clone, Copy)]
pub struct InvalidationMarker {
    pub refresh_token_hash: TokenHash,
    pub expires_at: u64,
}

/// Issues and verifies access tokens, and keeps the revocation markers.
#[derive(Debug, Clone)]
pub struct AccessTokenService {
    /// Lifetime of an access token, in seconds.
    pub ttl: u64,
    pub markers: Vec<InvalidationMarker>,
}

/// Whether a live marker for `hash` is among `markers` at time `now`.
pub open spec fn invalidated_in(markers: Seq<InvalidationMarker>, hash: TokenHash, now: u64) -> bool {
    exists|i: int|
        0 <= i < markers.len() && markers[i].refresh_token_hash == hash && markers[i].expires_at
            > now
}

/// The identity that `claims` prove at time `now`, given the markers.
pub open spec fn verified(
    markers: Seq<InvalidationMarker>,
    claims: Option<AccessTokenClaims>,
    now: u64,
) -> Option<Authentication> {
    match claims {
        Some(c) => if now < c.exp && !invalidated_in(markers, c.refresh_token_hash, now) {
            Some(
                Authentication {
                    user_id: c.user_id,
                    session_id: c.session_id,
                    admin: c.admin,
                    email_verified: c.email_verified,
                },
            )
        } else {
            None
        },
        None => None,
    }
}

/// The claims issued for `user` and a session at `now`, valid for `ttl` seconds.
pub open spec fn issued(
    user: User,
    session_id: SessionId,
    refresh_token_hash: TokenHash,
    now: u64,
    ttl: u64,
) -> AccessTokenClaims {
    AccessTokenClaims {
        user_id: user.id,
        session_id,
        admin: user.admin,
        email_verified: user.email_verified,
        refresh_token_hash,
        iat: now,
        exp: expiry(now, ttl),
    }
}

impl AccessTokenService {
    pub fn new(ttl: u64) -> (r: Self)
        ensures
            r.ttl == ttl,
            r.markers@.len() == 0,
    {
        AccessTokenService { ttl, markers: Vec::new() }
    }

    pub open spec fn is_invalidated_at(&self, hash: TokenHash, now: u64) -> bool {
        invalidated_in(self.markers@, hash, now)
    }

    pub open spec fn verified_at(&self, claims: Option<AccessTokenClaims>, now: u64) -> Option<
        Authentication,
    > {
        verified(self.markers@, claims, now)
    }

    /// The claims of a new access token for `user` in a session.
    pub fn issue(&self, user: &User, session_id: SessionId, refresh_token_hash: TokenHash, now: u64) -> (r:
        AccessTokenClaims)
        ensures
            r == issued(*user, session_id, refresh_token_hash, now, self.ttl),
    {
        AccessTokenClaims {
            user_id: user.id,
            session_id,
            admin: user.admin,
            email_verified: user.email_verified,
            refresh_token_hash,
            iat: now,
            exp: compute_expiry(now, self.ttl),
        }
    }

    /// Whether tokens tied to `hash` are revoked at `now`.
    pub fn is_invalidated(&self, hash: TokenHash, now: u64) -> (r: bool)
        ensures
            r == self.is_invalidated_at(hash, now),
    {
        let mut i: usize = 0;
        while i < self.markers.len()
            invariant
                i <= self.markers@.len(),
                forall|j: int|
                    0 <= j < i ==> !(self.markers@[j].refresh_token_hash == hash
                        && self.markers@[j].expires_at > now),
            decreases self.markers@.len() - i,
        {
            let m = self.markers[i];
            if m.refresh_token_hash == hash && m.expires_at > now {
                return true;
            }
            i = i + 1;
        }
        false
    }

    /// The identity proven by a token, or `None` when it had no valid
    /// signature, has expired, or was revoked.
    pub fn verify(&self, claims: Option<AccessTokenClaims>, now: u64) -> (r: Option<Authentication>)
        ensures
            r == self.verified_at(claims, now),
    {
        match claims {
            Some(c) => {
                if now < c.exp && !self.is_invalidated(c.refresh_token_hash, now) {
                    Some(
                        Authentication {
                            user_id: c.user_id,
                            session_id: c.session_id,
                            admin: c.admin,
                            email_verified: c.email_verified,
                        },
                    )
                } else {
                    None
                }
            },
            None => None,
        }
    }

    /// Revokes every token tied to `hash` for as long as a token issued now
    /// could live.
    pub fn invalidate(&mut self, hash: TokenHash, now: u64)
        ensures
            final(self).ttl == old(self).ttl,
            final(self).markers@ == old(self).markers@.push(
                InvalidationMarker { refresh_token_hash: hash, expires_at: expiry(now, old(self).ttl) },
            ),
            forall|t: u64|
                t < expiry(now, old(self).ttl) ==> final(self).is_invalidated_at(hash, t),
            forall|h: TokenHash, t: u64|
                old(self).is_invalidated_at(h, t) ==> final(self).is_invalidated_at(h, t),
    {
        let expires_at = compute_expiry(now, self.ttl);
        self.markers.push(InvalidationMarker { refresh_token_hash: hash, expires_at });
        proof {
            let n = self.markers@.len() - 1;
            assert forall|t: u64| t < expiry(now, self.ttl) implies self.is_invalidated_at(
                hash,
                t,
            ) by {
                assert(self.markers@[n].refresh_token_hash == hash);
            }
            assert forall|h: TokenHash, t: u64|
                old(self).is_invalidated_at(h, t) implies self.is_invalidated_at(h, t) by {
                let i = choose|i: int|
                    0 <= i < old(self).markers@.len() && old(self).markers@[i].refresh_token_hash
                        == h && old(self).markers@[i].expires_at > t;
                assert(self.markers@[i] == old(self).markers@[i]);
            }
        }
    }
}

/// Revocation outruns expiry: once `invalidate(hash)` has run at `now`, no
/// token tied to `hash` that was issued at or before `now` verifies at any
/// later moment, even before the token's own expiry.
pub proof fn lemma_invalidated_token_fails(
    before: AccessTokenService,
    after: AccessTokenService,
    user: User,
    session_id: SessionId,
    hash: TokenHash,
    issued_at: u64,
    now: u64,
    later: u64,
)
    requires
        after.ttl == before.ttl,
        after.markers@ == before.markers@.push(
            InvalidationMarker { refresh_token_hash: hash, expires_at: expiry(now, before.ttl) },
        ),
        issued_at <= now,
        now <= later,
    ensures
        after.verified_at(Some(issued(user, session_id, hash, issued_at, before.ttl)), later) is None,
{
    let claims = issued(user, session_id, hash, issued_at, before.ttl);
    if later < claims.exp {
        assert(after.markers@[before.markers@.len() as int].refresh_token_hash == hash);
    }
}

} // verus!
