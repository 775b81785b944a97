use vstd::prelude::*;

use crate::access_token::{issued, AccessTokenClaims, AccessTokenService};
use crate::failed_auth::{bumped, cleared, lemma_bump_never_lowers, FailedAuthCountService};
use crate::mfa::{
    has_device, mfa_on, mfa_outcome, recovery_matches, MfaAuthenticateResult, MfaAuthentication,
    MfaDisableError, MfaEnableError, MfaInitializeError, MfaStore,
};
use crate::models::{
    clone_text, AuthError, AuthenticateError, Authentication, Session, SessionId, TokenHash,
    User, UserId, UserIdOrSelf,
};
use crate::session_store::{
    has_id, hash_in_use, refresh_lookup, AuthenticateByRefreshTokenError, SessionStore,
};
use crate::models::expiry;
use crate::text::lower_of;

verus! {

#[derive(Debug, Clone, Copy)]
pub struct SessionFeatureConfig {
    /// Failed logins for an identifier after which a CAPTCHA is required.
    pub login_fails_before_captcha: u64,
}

/// A login request.
#[derive(Debug)]
pub struct SessionCreateCommand {
    pub name_or_email: String,
    pub device_name: Option<String>,
}

/// What the outside collaborators contribute to one login attempt: their
/// verdicts, fresh random values and the current time.
#[derive(Debug, Clone, Copy)]
pub struct LoginInputs {
    /// The CAPTCHA verifier accepted the response that came with the request
    /// (false when none came).
    pub captcha_passed: bool,
    /// The password hasher accepted the password for the resolved user.
    pub password_valid: bool,
    pub mfa: MfaAuthentication,
    /// A fresh random session id.
    pub session_id: SessionId,
    /// Digest of a fresh random refresh token.
    pub refresh_token_hash: TokenHash,
    pub now: u64,
}

/// A successful login or refresh.
#[derive(Debug)]
pub struct Login {
    pub user: User,
    pub session: Session,
    pub access_token: AccessTokenClaims,
}

#[derive(Debug, Clone, Copy, PartialEq, Eq, Structural)]
pub enum SessionCreateError {
    /// Too many failed logins: a passing CAPTCHA is required.
    Recaptcha,
    /// Unknown user, or wrong password.
    InvalidCredentials,
    MfaFailed,
    UserDisabled,
    /// The fresh session id or refresh token collided with a stored one.
    Internal,
}

#[derive(Debug, Clone, Copy, PartialEq, Eq, Structural)]
pub enum SessionRefreshError {
    InvalidRefreshToken,
    /// The fresh refresh token collided, or the session's user is gone.
    Internal,
}

#[derive(Debug, Clone, Copy, PartialEq, Eq, Structural)]
pub enum SessionImpersonateError {
    Auth(AuthError),
    NotFound,
    Internal,
}

/// Error of the operations that act on one session of a user.
#[derive(Debug, Clone, Copy, PartialEq, Eq, Structural)]
pub enum SessionDeleteError {
    Auth(AuthError),
    NotFound,
}

#[derive(Debug, Clone, Copy, PartialEq, Eq, Structural)]
pub enum SessionGetCurrentError {
    Auth(AuthError),
    /// The token is valid but its session is gone.
    NotFound,
}

/// Whether `ident` is the user's name or email address.
pub open spec fn user_matches(u: User, ident: Seq<char>) -> bool {
    u.name@ == ident || (u.email matches Some(e) && e@ == ident)
}

/// Position `i` holds the first user that `ident` names.
pub open spec fn resolves_to(users: Seq<User>, ident: Seq<char>, i: int) -> bool {
    &&& 0 <= i < users.len()
    &&& user_matches(users[i], ident)
    &&& forall|j: int| 0 <= j < i ==> !user_matches(#[trigger] users[j], ident)
}

/// The position of the user that `ident` names, if any.
pub open spec fn resolved(users: Seq<User>, ident: Seq<char>) -> Option<int> {
    if exists|i: int| resolves_to(users, ident, i) {
        Some(choose|i: int| resolves_to(users, ident, i))
    } else {
        None
    }
}

pub open spec fn user_index(users: Seq<User>, id: UserId, i: int) -> bool {
    0 <= i < users.len() && users[i].id == id
}

pub open spec fn user_exists(users: Seq<User>, id: UserId) -> bool {
    exists|i: int| user_index(users, id, i)
}

/// The failure counters of a user's name and email address both took one
/// more failure at `now`.
pub open spec fn bumped_user(
    before: FailedAuthCountService,
    after: FailedAuthCountService,
    u: User,
    now: u64,
) -> bool {
    match u.email {
        Some(e) => exists|mid: FailedAuthCountService|
            bumped(before, mid, lower_of(u.name@), now) && bumped(mid, after, lower_of(e@), now),
        None => bumped(before, after, lower_of(u.name@), now),
    }
}

/// The failure counters of a user's name and email address are both cleared.
pub open spec fn cleared_user(before: FailedAuthCountService, after: FailedAuthCountService, u: User) -> bool {
    match u.email {
        Some(e) => exists|mid: FailedAuthCountService|
            cleared(before, mid, lower_of(u.name@)) && cleared(mid, after, lower_of(e@)),
        None => cleared(before, after, lower_of(u.name@)),
    }
}

/// The session a successful login creates.
pub open spec fn new_session(cmd: SessionCreateCommand, inputs: LoginInputs, user_id: UserId) -> Session {
    Session {
        id: inputs.session_id,
        user_id,
        device_name: cmd.device_name,
        refresh_token_hash: inputs.refresh_token_hash,
        created_at: inputs.now,
        updated_at: inputs.now,
    }
}

/// Whether the session `id` in `s` holds the refresh-token digest `h`.
pub open spec fn holds_digest(s: Seq<Session>, id: SessionId, h: TokenHash) -> bool {
    exists|i: int| crate::session_store::id_at(s, i, id) && s[i].refresh_token_hash == h
}

/// `after` is `before` without session `id`, and every access token tied to
/// that session's digest is revoked until a token issued at `now` would expire.
pub open spec fn session_revoked(
    before: SessionFeatureServiceImpl,
    after: SessionFeatureServiceImpl,
    id: SessionId,
    now: u64,
) -> bool {
    exists|i: int|
        crate::session_store::id_at(before.sessions.sessions@, i, id)
            && after.sessions.sessions@ == before.sessions.sessions@.remove(i) && forall|t: u64|
            t < expiry(now, before.access_token.ttl) ==> #[trigger] after.access_token.is_invalidated_at(
                before.sessions.sessions@[i].refresh_token_hash,
                t,
            )
}

/// The identity, session, MFA and failure state behind logins, refreshes and
/// logouts.
#[derive(Debug)]
pub struct SessionFeatureServiceImpl {
    pub users: Vec<User>,
    pub sessions: SessionStore,
    pub mfa: MfaStore,
    pub failed_auth: FailedAuthCountService,
    pub access_token: AccessTokenService,
    /// Lifetime of a refresh token since its session was created or refreshed.
    pub refresh_token_ttl: u64,
    pub config: SessionFeatureConfig,
}

impl SessionFeatureServiceImpl {
    pub open spec fn wf(&self) -> bool {
        &&& forall|i: int, j: int|
            0 <= i < self.users@.len() && 0 <= j < self.users@.len() && i != j
                ==> self.users@[i].id != self.users@[j].id
        &&& self.sessions.wf()
        &&& self.mfa.wf()
        &&& self.failed_auth.wf()
    }

    /// Whether a login for `ident` needs a CAPTCHA that did not pass.
    pub open spec fn captcha_gated(&self, ident: Seq<char>, inputs: LoginInputs) -> bool {
        self.failed_auth.count_for(ident, inputs.now) >= self.config.login_fails_before_captcha
            && !inputs.captcha_passed
    }

    /// Why a login is refused, in the order the checks run; `None` when it succeeds.
    pub open spec fn login_rejection(&self, cmd: SessionCreateCommand, inputs: LoginInputs) -> Option<
        SessionCreateError,
    > {
        let ident = cmd.name_or_email@;
        if self.captcha_gated(ident, inputs) {
            Some(SessionCreateError::Recaptcha)
        } else {
            match resolved(self.users@, ident) {
                None => Some(SessionCreateError::InvalidCredentials),
                Some(i) => {
                    let u = self.users@[i];
                    if !inputs.password_valid {
                        Some(SessionCreateError::InvalidCredentials)
                    } else if mfa_on(self.mfa.records@, u.id) && mfa_outcome(
                        self.mfa.records@,
                        u.id,
                        inputs.mfa,
                    ) is Err {
                        Some(SessionCreateError::MfaFailed)
                    } else if !u.enabled {
                        Some(SessionCreateError::UserDisabled)
                    } else if has_id(self.sessions.sessions@, inputs.session_id) || hash_in_use(
                        self.sessions.sessions@,
                        inputs.refresh_token_hash,
                    ) {
                        Some(SessionCreateError::Internal)
                    } else {
                        None
                    }
                },
            }
        }
    }

    pub fn new(
        config: SessionFeatureConfig,
        access_token_ttl: u64,
        refresh_token_ttl: u64,
        failed_auth_ttl: u64,
    ) -> (r: Self)
        ensures
            r.wf(),
            r.users@.len() == 0,
            r.sessions.sessions@.len() == 0,
            r.mfa.records@.len() == 0,
            r.failed_auth.ttl == failed_auth_ttl,
            forall|key: Seq<char>, now: u64| r.failed_auth.count(key, now) == 0,
            r.access_token.ttl == access_token_ttl,
            r.access_token.markers@.len() == 0,
            r.refresh_token_ttl == refresh_token_ttl,
            r.config == config,
    {
        SessionFeatureServiceImpl {
            users: Vec::new(),
            sessions: SessionStore::new(),
            mfa: MfaStore::new(),
            failed_auth: FailedAuthCountService::new(failed_auth_ttl),
            access_token: AccessTokenService::new(access_token_ttl),
            refresh_token_ttl,
            config,
        }
    }

    fn find_user(&self, id: UserId) -> (r: Option<usize>)
        ensures
            r matches Some(i) ==> user_index(self.users@, id, i as int),
            r is None ==> !user_exists(self.users@, id),
    {
        let mut i: usize = 0;
        while i < self.users.len()
            invariant
                i <= self.users@.len(),
                forall|j: int| 0 <= j < i ==> self.users@[j].id != id,
            decreases self.users@.len() - i,
        {
            if self.users[i].id == id {
                return Some(i);
            }
            i = i + 1;
        }
        None
    }

    /// Whether an account has the given id.
    pub fn has_user(&self, id: UserId) -> (r: bool)
        ensures
            r == user_exists(self.users@, id),
    {
        self.find_user(id).is_some()
    }

    /// The account with the given id.
    pub fn get_user(&self, id: UserId) -> (r: Option<User>)
        requires
            self.wf(),
        ensures
            r is None <==> !user_exists(self.users@, id),
            r matches Some(u) ==> u.id == id && self.users@.contains(u),
    {
        match self.find_user(id) {
            Some(i) => Some(self.users[i].clone()),
            None => None,
        }
    }

    /// The first account with the given email address.
    pub fn get_user_by_email(&self, email: &String) -> (r: Option<User>)
        ensures
            r is None <==> forall|i: int|
                0 <= i < self.users@.len() ==> !(#[trigger] self.users@[i].email matches Some(e)
                    && e@ == email@),
            r matches Some(u) ==> (u.email matches Some(e) && e@ == email@) && self.users@.contains(u),
    {
        let mut i: usize = 0;
        while i < self.users.len()
            invariant
                i <= self.users@.len(),
                forall|j: int| 0 <= j < i ==> !(#[trigger] self.users@[j].email matches Some(e) && e@ == email@),
            decreases self.users@.len() - i,
        {
            let hit = match &self.users[i].email {
                Some(e) => *e == *email,
                None => false,
            };
            if hit {
                let u = self.users[i].clone();
                proof {
                    assert(self.users@[i as int] == u);
                }
                return Some(u);
            }
            i = i + 1;
        }
        None
    }

    /// Adds an account, unless its id is taken.
    pub fn add_user(&mut self, user: User) -> (r: bool)
        requires
            old(self).wf(),
        ensures
            final(self).wf(),
            final(self).config == old(self).config,
            final(self).refresh_token_ttl == old(self).refresh_token_ttl,
            final(self).access_token.ttl == old(self).access_token.ttl,
            r == !user_exists(old(self).users@, user.id),
            r ==> final(self).users@ == old(self).users@.push(user),
            !r ==> final(self).users@ == old(self).users@,
            final(self).sessions == old(self).sessions,
            final(self).mfa == old(self).mfa,
            final(self).failed_auth == old(self).failed_auth,
            final(self).access_token == old(self).access_token,
    {
        if self.find_user(user.id).is_some() {
            return false;
        }
        let ghost before = self.users@;
        self.users.push(user);
        proof {
            assert forall|j: int| 0 <= j < before.len() implies before[j].id != user.id by {
                if before[j].id == user.id {
                    assert(user_index(before, user.id, j));
                }
            }
        }
        true
    }

    /// The account that a user name or email address names.
    pub fn resolve_user(&self, name_or_email: &String) -> (r: Option<usize>)
        ensures
            r matches Some(i) ==> resolved(self.users@, name_or_email@) == Some(i as int),
            r is None ==> resolved(self.users@, name_or_email@) is None,
    {
        let mut i: usize = 0;
        while i < self.users.len()
            invariant
                i <= self.users@.len(),
                forall|j: int| 0 <= j < i ==> !user_matches(#[trigger] self.users@[j], name_or_email@),
            decreases self.users@.len() - i,
        {
            let u = &self.users[i];
            let by_email = match &u.email {
                Some(e) => *e == *name_or_email,
                None => false,
            };
            if u.name == *name_or_email || by_email {
                proof {
                    assert(resolves_to(self.users@, name_or_email@, i as int));
                    let k = choose|k: int| resolves_to(self.users@, name_or_email@, k);
                    if k < i {
                        assert(!user_matches(self.users@[k], name_or_email@));
                    } else if k > i {
                        assert(!user_matches(self.users@[i as int], name_or_email@));
                    }
                }
                return Some(i);
            }
            i = i + 1;
        }
        proof {
            assert forall|k: int| !resolves_to(self.users@, name_or_email@, k) by {
                if 0 <= k < self.users@.len() {
                    assert(!user_matches(self.users@[k], name_or_email@));
                }
            }
        }
        None
    }

    fn count_user_failure(&mut self, i: usize, now: u64)
        requires
            old(self).wf(),
            i < old(self).users@.len(),
        ensures
            final(self).wf(),
            bumped_user(old(self).failed_auth, final(self).failed_auth, old(self).users@[i as int], now),
            final(self).users == old(self).users,
            final(self).sessions == old(self).sessions,
            final(self).mfa == old(self).mfa,
            final(self).access_token == old(self).access_token,
            final(self).refresh_token_ttl == old(self).refresh_token_ttl,
            final(self).config == old(self).config,
    {
        let ghost start = self.failed_auth;
        self.failed_auth.increment(self.users[i].name.as_str(), now);
        let ghost mid = self.failed_auth;
        match &self.users[i].email {
            Some(e) => {
                self.failed_auth.increment(e.as_str(), now);
                assert(bumped(start, mid, lower_of(self.users@[i as int].name@), now));
            },
            None => {},
        }
    }

    fn clear_user_failures(&mut self, i: usize)
        requires
            old(self).wf(),
            i < old(self).users@.len(),
        ensures
            final(self).wf(),
            cleared_user(old(self).failed_auth, final(self).failed_auth, old(self).users@[i as int]),
            final(self).users == old(self).users,
            final(self).sessions == old(self).sessions,
            final(self).mfa == old(self).mfa,
            final(self).access_token == old(self).access_token,
            final(self).refresh_token_ttl == old(self).refresh_token_ttl,
            final(self).config == old(self).config,
    {
        let ghost start = self.failed_auth;
        self.failed_auth.reset(self.users[i].name.as_str());
        let ghost mid = self.failed_auth;
        match &self.users[i].email {
            Some(e) => {
                self.failed_auth.reset(e.as_str());
                assert(cleared(start, mid, lower_of(self.users@[i as int].name@)));
            },
            None => {},
        }
    }

    /// Whether a login for `name_or_email` at `now` must first pass a CAPTCHA.
    pub fn captcha_required(&self, name_or_email: &str, now: u64) -> (r: bool)
        requires
            self.wf(),
        ensures
            r == (self.failed_auth.count_for(name_or_email@, now)
                >= self.config.login_fails_before_captcha),
    {
        self.failed_auth.get(name_or_email, now) >= self.config.login_fails_before_captcha
    }

    /// Logs a user in by name or email address, password and second factor.
    ///
    /// Past the failure threshold a passing CAPTCHA comes first. An unknown
    /// identifier counts a failure for the identifier as typed; a wrong
    /// password or second factor counts one for the user's name and email
    /// address. Success clears both, then requires an enabled account, and
    /// opens a session. A recovery code used as second factor disables MFA.
    pub fn create_session(&mut self, cmd: &SessionCreateCommand, inputs: LoginInputs) -> (r: Result<
        Login,
        SessionCreateError,
    >)
        requires
            old(self).wf(),
        ensures
            final(self).wf(),
            final(self).config == old(self).config,
            final(self).refresh_token_ttl == old(self).refresh_token_ttl,
            final(self).access_token.ttl == old(self).access_token.ttl,
            r is Ok <==> old(self).login_rejection(*cmd, inputs) is None,
            r matches Err(e) ==> old(self).login_rejection(*cmd, inputs) == Some(e),
            final(self).users == old(self).users,
            final(self).access_token == old(self).access_token,
            old(self).captcha_gated(cmd.name_or_email@, inputs) ==> *final(self) == *old(self),
            (r == Err::<Login, SessionCreateError>(SessionCreateError::InvalidCredentials) || r
                == Err::<Login, SessionCreateError>(SessionCreateError::MfaFailed)) && expiry(
                inputs.now,
                old(self).failed_auth.ttl,
            ) > inputs.now ==> forall|k: Seq<char>|
                #[trigger] final(self).failed_auth.count(k, inputs.now) >= old(self).failed_auth.count(
                    k,
                    inputs.now,
                ),
            !old(self).captcha_gated(cmd.name_or_email@, inputs) && resolved(
                old(self).users@,
                cmd.name_or_email@,
            ) is None ==> bumped(
                old(self).failed_auth,
                final(self).failed_auth,
                lower_of(cmd.name_or_email@),
                inputs.now,
            ) && final(self).sessions == old(self).sessions && final(self).mfa == old(self).mfa,
            resolved(old(self).users@, cmd.name_or_email@) matches Some(i) ==> !old(self).captcha_gated(cmd.name_or_email@, inputs) ==> {
                let u = old(self).users@[i];
                let mfa_ok = !mfa_on(old(self).mfa.records@, u.id) || mfa_outcome(
                    old(self).mfa.records@,
                    u.id,
                    inputs.mfa,
                ) is Ok;
                &&& (!inputs.password_valid || !mfa_ok) ==> bumped_user(
                    old(self).failed_auth,
                    final(self).failed_auth,
                    u,
                    inputs.now,
                ) && final(self).sessions == old(self).sessions && final(self).mfa == old(self).mfa
                &&& (inputs.password_valid && mfa_ok) ==> cleared_user(
                    old(self).failed_auth,
                    final(self).failed_auth,
                    u,
                )
                &&& r is Err ==> final(self).sessions == old(self).sessions && final(self).mfa
                    == old(self).mfa
                &&& r matches Ok(login) ==> {
                    &&& login.user == u
                    &&& forall|t: u64| final(self).failed_auth.count_for(u.name@, t) == 0
                    &&& u.email matches Some(e) ==> forall|t: u64|
                        final(self).failed_auth.count_for(e@, t) == 0
                    &&& login.session == new_session(*cmd, inputs, u.id)
                    &&& login.access_token == issued(
                        u,
                        inputs.session_id,
                        inputs.refresh_token_hash,
                        inputs.now,
                        old(self).access_token.ttl,
                    )
                    &&& final(self).sessions.sessions@ == old(self).sessions.sessions@.push(
                        login.session,
                    )
                    &&& mfa_on(old(self).mfa.records@, u.id) && mfa_outcome(
                        old(self).mfa.records@,
                        u.id,
                        inputs.mfa,
                    ) == Ok::<MfaAuthenticateResult, crate::mfa::MfaAuthenticateError>(
                        MfaAuthenticateResult::Reset,
                    ) ==> !has_device(final(self).mfa.records@, u.id)
                    &&& !(mfa_on(old(self).mfa.records@, u.id) && mfa_outcome(
                        old(self).mfa.records@,
                        u.id,
                        inputs.mfa,
                    ) == Ok::<MfaAuthenticateResult, crate::mfa::MfaAuthenticateError>(
                        MfaAuthenticateResult::Reset,
                    )) ==> final(self).mfa == old(self).mfa
                }
            },
    {
        let failed = self.failed_auth.get(cmd.name_or_email.as_str(), inputs.now);
        if failed >= self.config.login_fails_before_captcha && !inputs.captcha_passed {
            return Err(SessionCreateError::Recaptcha);
        }
        let i = match self.resolve_user(&cmd.name_or_email) {
            Some(i) => i,
            None => {
                let ghost start = self.failed_auth;
                self.failed_auth.increment(cmd.name_or_email.as_str(), inputs.now);
                proof {
                    if expiry(inputs.now, start.ttl) > inputs.now {
                        lemma_bump_never_lowers(
                            start,
                            self.failed_auth,
                            lower_of(cmd.name_or_email@),
                            inputs.now,
                        );
                    }
                }
                return Err(SessionCreateError::InvalidCredentials);
            },
        };
        let user_id = self.users[i].id;
        if !inputs.password_valid {
            let ghost start = self.failed_auth;
            self.count_user_failure(i, inputs.now);
            proof {
                if expiry(inputs.now, start.ttl) > inputs.now {
                    lemma_failed_login_never_lowers(
                        start,
                        self.failed_auth,
                        self.users@[i as int],
                        inputs.now,
                    );
                }
            }
            return Err(SessionCreateError::InvalidCredentials);
        }
        let mut reset_mfa = false;
        if self.mfa.is_enabled(user_id) {
            match self.mfa.authenticate(user_id, inputs.mfa) {
                Ok(MfaAuthenticateResult::Totp) => {},
                Ok(MfaAuthenticateResult::Reset) => {
                    reset_mfa = true;
                },
                Err(_) => {
                    let ghost start = self.failed_auth;
                    self.count_user_failure(i, inputs.now);
                    proof {
                        if expiry(inputs.now, start.ttl) > inputs.now {
                            lemma_failed_login_never_lowers(
                                start,
                                self.failed_auth,
                                self.users@[i as int],
                                inputs.now,
                            );
                        }
                    }
                    return Err(SessionCreateError::MfaFailed);
                },
            }
        }
        self.clear_user_failures(i);
        proof {
            lemma_cleared_user_counts_zero(old(self).failed_auth, self.failed_auth, self.users@[i as int]);
        }
        if !self.users[i].enabled {
            return Err(SessionCreateError::UserDisabled);
        }
        let session = Session {
            id: inputs.session_id,
            user_id,
            device_name: clone_text(&cmd.device_name),
            refresh_token_hash: inputs.refresh_token_hash,
            created_at: inputs.now,
            updated_at: inputs.now,
        };
        match self.sessions.create(session.clone()) {
            Ok(()) => {},
            Err(_) => return Err(SessionCreateError::Internal),
        }
        if reset_mfa {
            self.mfa.disable(user_id);
        }
        let user = self.users[i].clone();
        let access_token = self.access_token.issue(
            &user,
            inputs.session_id,
            inputs.refresh_token_hash,
            inputs.now,
        );
        Ok(Login { user, session, access_token })
    }

    /// What presenting `claims` at `now` proves.
    pub open spec fn authenticated(&self, claims: Option<AccessTokenClaims>, now: u64) -> Result<
        Authentication,
        AuthError,
    > {
        match self.access_token.verified_at(claims, now) {
            Some(a) => Ok(a),
            None => Err(AuthError::Authenticate(AuthenticateError::InvalidToken)),
        }
    }

    /// Checks an access token (its claims, when its signature checked out).
    pub fn authenticate(&self, claims: Option<AccessTokenClaims>, now: u64) -> (r: Result<
        Authentication,
        AuthError,
    >)
        ensures
            r == self.authenticated(claims, now),
    {
        match self.access_token.verify(claims, now) {
            Some(a) => Ok(a),
            None => Err(AuthError::Authenticate(AuthenticateError::InvalidToken)),
        }
    }

    /// The caller's identity, and the user it acts on when allowed to.
    fn authorize_self_or_admin(&self, claims: Option<AccessTokenClaims>, now: u64, user_id: UserIdOrSelf) -> (r: Result<
        UserId,
        AuthError,
    >)
        ensures
            match self.authenticated(claims, now) {
                Err(e) => r == Err::<UserId, AuthError>(e),
                Ok(a) => {
                    let target = user_id.resolved(a.user_id);
                    if a.user_id == target || a.admin {
                        r == Ok::<UserId, AuthError>(target)
                    } else {
                        r == Err::<UserId, AuthError>(
                            AuthError::Authorize(crate::models::AuthorizeError::Admin),
                        )
                    }
                },
            },
    {
        let auth = match self.authenticate(claims, now) {
            Ok(a) => a,
            Err(e) => return Err(e),
        };
        let target = user_id.unwrap_or(auth.user_id);
        match auth.ensure_self_or_admin(target) {
            Ok(()) => Ok(target),
            Err(e) => Err(AuthError::Authorize(e)),
        }
    }

    /// Removes session `id` and revokes the access tokens issued for it.
    fn remove_session(&mut self, id: SessionId, now: u64) -> (r: bool)
        requires
            old(self).wf(),
        ensures
            final(self).wf(),
            r == has_id(old(self).sessions.sessions@, id),
            !has_id(final(self).sessions.sessions@, id),
            !r ==> *final(self) == *old(self),
            r ==> session_revoked(*old(self), *final(self), id, now),
            final(self).users == old(self).users,
            final(self).mfa == old(self).mfa,
            final(self).failed_auth == old(self).failed_auth,
            final(self).access_token.ttl == old(self).access_token.ttl,
            final(self).refresh_token_ttl == old(self).refresh_token_ttl,
            final(self).config == old(self).config,
    {
        match self.sessions.delete(id) {
            Some(s) => {
                self.access_token.invalidate(s.refresh_token_hash, now);
                true
            },
            None => false,
        }
    }

    /// Exchanges a refresh token (by its digest) for a new one and a new
    /// access token, keeping the session. A token past its lifetime deletes
    /// its session.
    pub fn refresh_session(&mut self, refresh_token_hash: TokenHash, new_hash: TokenHash, now: u64) -> (r:
        Result<Login, SessionRefreshError>)
        requires
            old(self).wf(),
        ensures
            final(self).wf(),
            final(self).config == old(self).config,
            final(self).refresh_token_ttl == old(self).refresh_token_ttl,
            final(self).access_token.ttl == old(self).access_token.ttl,
            final(self).users == old(self).users,
            final(self).mfa == old(self).mfa,
            final(self).failed_auth == old(self).failed_auth,
            match refresh_lookup(
                old(self).sessions.sessions@,
                refresh_token_hash,
                now,
                old(self).refresh_token_ttl,
            ) {
                Err(AuthenticateByRefreshTokenError::Invalid) => r == Err::<Login, SessionRefreshError>(
                    SessionRefreshError::InvalidRefreshToken,
                ) && *final(self) == *old(self),
                Err(AuthenticateByRefreshTokenError::Expired(id)) => r == Err::<
                    Login,
                    SessionRefreshError,
                >(SessionRefreshError::InvalidRefreshToken) && !has_id(
                    final(self).sessions.sessions@,
                    id,
                ),
                Ok(id) => {
                    &&& r is Ok <==> !hash_in_use(old(self).sessions.sessions@, new_hash)
                        && exists|i: int|
                        crate::session_store::id_at(old(self).sessions.sessions@, i, id)
                            && user_exists(old(self).users@, old(self).sessions.sessions@[i].user_id)
                    &&& r is Err ==> r == Err::<Login, SessionRefreshError>(
                        SessionRefreshError::Internal,
                    ) && *final(self) == *old(self)
                    &&& r matches Ok(login) ==> {
                        &&& login.session.id == id
                        &&& login.session.refresh_token_hash == new_hash
                        &&& login.session.updated_at == now
                        &&& login.user.id == login.session.user_id
                        &&& old(self).users@.contains(login.user)
                        &&& login.access_token == issued(
                            login.user,
                            id,
                            new_hash,
                            now,
                            old(self).access_token.ttl,
                        )
                        &&& crate::session_store::rotated(
                            old(self).sessions.sessions@,
                            final(self).sessions.sessions@,
                            id,
                            new_hash,
                            now,
                        )
                        &&& forall|t: u64, ttl: u64|
                            refresh_lookup(final(self).sessions.sessions@, refresh_token_hash, t, ttl)
                                == Err::<SessionId, AuthenticateByRefreshTokenError>(
                                AuthenticateByRefreshTokenError::Invalid,
                            )
                    }
                },
            },
    {
        let id = match self.sessions.authenticate_by_refresh_token(
            refresh_token_hash,
            now,
            self.refresh_token_ttl,
        ) {
            Ok(id) => id,
            Err(AuthenticateByRefreshTokenError::Invalid) => {
                return Err(SessionRefreshError::InvalidRefreshToken);
            },
            Err(AuthenticateByRefreshTokenError::Expired(id)) => {
                self.remove_session(id, now);
                return Err(SessionRefreshError::InvalidRefreshToken);
            },
        };
        let ghost before = self.sessions.sessions@;
        let k = match self.sessions.find(id) {
            Some(k) => k,
            None => {
                return Err(SessionRefreshError::Internal);
            },
        };
        proof {
            let j = choose|j: int| crate::session_store::hash_at(before, j, refresh_token_hash);
            assert(before[j].id == id);
            assert(j == k as int);
        }
        let user_id = self.sessions.sessions[k].user_id;
        let u = match self.find_user(user_id) {
            Some(u) => u,
            None => {
                proof {
                    assert forall|i: int| !(crate::session_store::id_at(before, i, id) && user_exists(
                        self.users@,
                        before[i].user_id,
                    )) by {
                        if crate::session_store::id_at(before, i, id) {
                            assert(i == k as int);
                        }
                    }
                }
                return Err(SessionRefreshError::Internal);
            },
        };
        let session = match self.sessions.refresh(id, new_hash, now) {
            Ok(s) => s,
            Err(_) => {
                return Err(SessionRefreshError::Internal);
            },
        };
        let user = self.users[u].clone();
        let access_token = self.access_token.issue(&user, id, new_hash, now);
        proof {
            assert(self.users@[u as int] == user);
            assert(crate::session_store::id_at(before, k as int, id));
            assert(user_index(self.users@, user_id, u as int));
            assert forall|t: u64, ttl: u64|
                refresh_lookup(self.sessions.sessions@, refresh_token_hash, t, ttl) == Err::<
                    SessionId,
                    AuthenticateByRefreshTokenError,
                >(AuthenticateByRefreshTokenError::Invalid) by {
                crate::session_store::lemma_rotated_token_is_invalid(
                    before,
                    self.sessions.sessions@,
                    id,
                    refresh_token_hash,
                    new_hash,
                    now,
                    t,
                    ttl,
                );
            }
        }
        Ok(Login { user, session, access_token })
    }

    /// The session of the caller's access token.
    pub fn get_current_session(&self, claims: Option<AccessTokenClaims>, now: u64) -> (r: Result<
        Session,
        SessionGetCurrentError,
    >)
        requires
            self.wf(),
        ensures
            match self.authenticated(claims, now) {
                Err(e) => r == Err::<Session, SessionGetCurrentError>(SessionGetCurrentError::Auth(e)),
                Ok(a) => {
                    &&& r is Err <==> !has_id(self.sessions.sessions@, a.session_id)
                    &&& r is Err ==> r == Err::<Session, SessionGetCurrentError>(
                        SessionGetCurrentError::NotFound,
                    )
                    &&& r matches Ok(s) ==> s.id == a.session_id && self.sessions.sessions@.contains(s)
                },
            },
    {
        let auth = match self.authenticate(claims, now) {
            Ok(a) => a,
            Err(e) => return Err(SessionGetCurrentError::Auth(e)),
        };
        match self.sessions.get(auth.session_id) {
            Some(s) => Ok(s),
            None => Err(SessionGetCurrentError::NotFound),
        }
    }

    /// The sessions of a user: one's own, or anyone's for an administrator.
    pub fn list_by_user(&self, claims: Option<AccessTokenClaims>, now: u64, user_id: UserIdOrSelf) -> (r:
        Result<Vec<Session>, AuthError>)
        ensures
            match self.authenticated(claims, now) {
                Err(e) => r == Err::<Vec<Session>, AuthError>(e),
                Ok(a) => {
                    let target = user_id.resolved(a.user_id);
                    if a.user_id == target || a.admin {
                        r matches Ok(v) && v@ == self.sessions.sessions@.filter(
                            |s: Session| s.user_id == target,
                        )
                    } else {
                        r == Err::<Vec<Session>, AuthError>(
                            AuthError::Authorize(crate::models::AuthorizeError::Admin),
                        )
                    }
                },
            },
    {
        let target = match self.authorize_self_or_admin(claims, now, user_id) {
            Ok(t) => t,
            Err(e) => return Err(e),
        };
        Ok(self.sessions.list_by_user(target))
    }

    /// Logs out one session of a user: one's own, or anyone's for an
    /// administrator. Access tokens of the session stop working at once.
    pub fn delete_session(
        &mut self,
        claims: Option<AccessTokenClaims>,
        now: u64,
        user_id: UserIdOrSelf,
        session_id: SessionId,
    ) -> (r: Result<(), SessionDeleteError>)
        requires
            old(self).wf(),
        ensures
            final(self).wf(),
            final(self).config == old(self).config,
            final(self).refresh_token_ttl == old(self).refresh_token_ttl,
            final(self).access_token.ttl == old(self).access_token.ttl,
            final(self).users == old(self).users,
            final(self).mfa == old(self).mfa,
            final(self).failed_auth == old(self).failed_auth,
            r is Err ==> *final(self) == *old(self),
            match old(self).authenticated(claims, now) {
                Err(e) => r == Err::<(), SessionDeleteError>(SessionDeleteError::Auth(e)),
                Ok(a) => {
                    let target = user_id.resolved(a.user_id);
                    if !(a.user_id == target || a.admin) {
                        r == Err::<(), SessionDeleteError>(
                            SessionDeleteError::Auth(
                                AuthError::Authorize(crate::models::AuthorizeError::Admin),
                            ),
                        )
                    } else {
                        let owned = exists|i: int|
                            crate::session_store::id_at(old(self).sessions.sessions@, i, session_id)
                                && old(self).sessions.sessions@[i].user_id == target;
                        &&& r is Ok <==> owned
                        &&& r is Err ==> r == Err::<(), SessionDeleteError>(
                            SessionDeleteError::NotFound,
                        )
                        &&& r is Ok ==> !has_id(final(self).sessions.sessions@, session_id)
                        &&& r is Ok ==> session_revoked(*old(self), *final(self), session_id, now)
                    }
                },
            },
    {
        let target = match self.authorize_self_or_admin(claims, now, user_id) {
            Ok(t) => t,
            Err(e) => return Err(SessionDeleteError::Auth(e)),
        };
        let ghost before = self.sessions.sessions@;
        match self.sessions.find(session_id) {
            Some(k) => {
                proof {
                    assert forall|i: int| crate::session_store::id_at(before, i, session_id) implies i
                        == k by {}
                }
                if self.sessions.sessions[k].user_id != target {
                    return Err(SessionDeleteError::NotFound);
                }
            },
            None => return Err(SessionDeleteError::NotFound),
        }
        self.remove_session(session_id, now);
        Ok(())
    }

    /// Logs out the session of the caller's access token.
    pub fn delete_current_session(&mut self, claims: Option<AccessTokenClaims>, now: u64) -> (r: Result<
        (),
        AuthError,
    >)
        requires
            old(self).wf(),
        ensures
            final(self).wf(),
            final(self).config == old(self).config,
            final(self).refresh_token_ttl == old(self).refresh_token_ttl,
            final(self).access_token.ttl == old(self).access_token.ttl,
            final(self).users == old(self).users,
            final(self).mfa == old(self).mfa,
            final(self).failed_auth == old(self).failed_auth,
            match old(self).authenticated(claims, now) {
                Err(e) => r == Err::<(), AuthError>(e) && *final(self) == *old(self),
                Ok(a) => {
                    &&& r is Ok
                    &&& !has_id(final(self).sessions.sessions@, a.session_id)
                    &&& has_id(old(self).sessions.sessions@, a.session_id) ==> session_revoked(
                        *old(self),
                        *final(self),
                        a.session_id,
                        now,
                    )
                    &&& !has_id(old(self).sessions.sessions@, a.session_id) ==> *final(self) == *old(self)
                    &&& forall|t: u64|
                        (claims matches Some(c) && holds_digest(
                            old(self).sessions.sessions@,
                            a.session_id,
                            c.refresh_token_hash,
                        ) && t < expiry(now, old(self).access_token.ttl)) ==> #[trigger] final(self).authenticated(claims, t) == Err::<Authentication, AuthError>(
                            AuthError::Authenticate(AuthenticateError::InvalidToken),
                        )
                },
            },
    {
        let auth = match self.authenticate(claims, now) {
            Ok(a) => a,
            Err(e) => return Err(e),
        };
        let ghost before = *self;
        self.remove_session(auth.session_id, now);
        proof {
            assert forall|t: u64|
                (claims matches Some(c) && holds_digest(
                    before.sessions.sessions@,
                    auth.session_id,
                    c.refresh_token_hash,
                ) && t < expiry(now, before.access_token.ttl)) implies #[trigger] self.authenticated(
                claims,
                t,
            ) == Err::<Authentication, AuthError>(
                AuthError::Authenticate(AuthenticateError::InvalidToken),
            ) by {
                let c = claims->0;
                let j = choose|j: int|
                    crate::session_store::id_at(before.sessions.sessions@, j, auth.session_id)
                        && before.sessions.sessions@[j].refresh_token_hash == c.refresh_token_hash;
                let i = choose|i: int|
                    crate::session_store::id_at(before.sessions.sessions@, i, auth.session_id)
                        && self.sessions.sessions@ == before.sessions.sessions@.remove(i) && forall|
                        t2: u64,
                    |
                        t2 < expiry(now, before.access_token.ttl)
                            ==> #[trigger] self.access_token.is_invalidated_at(
                            before.sessions.sessions@[i].refresh_token_hash,
                            t2,
                        );
                assert(i == j);
                assert(self.access_token.is_invalidated_at(c.refresh_token_hash, t));
            }
        }
        Ok(())
    }

    /// Logs a user out everywhere: oneself, or anyone for an administrator.
    /// Access tokens of every removed session stop working at once.
    pub fn delete_by_user(&mut self, claims: Option<AccessTokenClaims>, now: u64, user_id: UserIdOrSelf) -> (r:
        Result<(), AuthError>)
        requires
            old(self).wf(),
        ensures
            final(self).wf(),
            final(self).config == old(self).config,
            final(self).refresh_token_ttl == old(self).refresh_token_ttl,
            final(self).access_token.ttl == old(self).access_token.ttl,
            final(self).users == old(self).users,
            final(self).mfa == old(self).mfa,
            final(self).failed_auth == old(self).failed_auth,
            r is Err ==> *final(self) == *old(self),
            match old(self).authenticated(claims, now) {
                Err(e) => r == Err::<(), AuthError>(e),
                Ok(a) => {
                    let target = user_id.resolved(a.user_id);
                    if a.user_id == target || a.admin {
                        &&& r is Ok
                        &&& final(self).sessions.sessions@ == old(self).sessions.sessions@.filter(
                            |s: Session| s.user_id != target,
                        )
                        &&& forall|i: int, t: u64|
                            0 <= i < old(self).sessions.sessions@.len()
                                && old(self).sessions.sessions@[i].user_id == target && t
                                < crate::models::expiry(now, old(self).access_token.ttl)
                                ==> final(self).access_token.is_invalidated_at(
                                old(self).sessions.sessions@[i].refresh_token_hash,
                                t,
                            )
                    } else {
                        r == Err::<(), AuthError>(
                            AuthError::Authorize(crate::models::AuthorizeError::Admin),
                        )
                    }
                },
            },
    {
        let target = match self.authorize_self_or_admin(claims, now, user_id) {
            Ok(t) => t,
            Err(e) => return Err(e),
        };
        let ghost before = self.sessions.sessions@;
        let removed = self.sessions.delete_by_user(target);
        let ghost start = self.access_token;
        let ghost mid = *self;
        let mut i: usize = 0;
        while i < removed.len()
            invariant
                i <= removed@.len(),
                self.users == mid.users,
                self.sessions == mid.sessions,
                self.mfa == mid.mfa,
                self.failed_auth == mid.failed_auth,
                self.refresh_token_ttl == mid.refresh_token_ttl,
                self.config == mid.config,
                mid.wf(),
                removed@ == before.filter(|s: Session| s.user_id == target),
                self.access_token.ttl == start.ttl,
                forall|h: TokenHash, t: u64| start.is_invalidated_at(h, t) ==> self.access_token.is_invalidated_at(h, t),
                forall|j: int, t: u64|
                    0 <= j < i && t < crate::models::expiry(now, start.ttl)
                        ==> self.access_token.is_invalidated_at(removed@[j].refresh_token_hash, t),
            decreases removed@.len() - i,
        {
            self.access_token.invalidate(removed[i].refresh_token_hash, now);
            i = i + 1;
        }
        proof {
            assert forall|k: int, t: u64|
                0 <= k < before.len() && before[k].user_id == target && t < crate::models::expiry(
                    now,
                    start.ttl,
                ) implies self.access_token.is_invalidated_at(before[k].refresh_token_hash, t) by {
                before.filter_lemma(|s: Session| s.user_id == target);
                lemma_filter_member(before, |s: Session| s.user_id == target, k);
                let j = choose|j: int| 0 <= j < removed@.len() && removed@[j] == before[k];
            }
        }
        Ok(())
    }

    /// Opens a session as another user, for an administrator. The failure
    /// counters are left alone.
    pub fn impersonate(
        &mut self,
        claims: Option<AccessTokenClaims>,
        now: u64,
        user_id: UserId,
        session_id: SessionId,
        refresh_token_hash: TokenHash,
    ) -> (r: Result<Login, SessionImpersonateError>)
        requires
            old(self).wf(),
        ensures
            final(self).wf(),
            final(self).config == old(self).config,
            final(self).refresh_token_ttl == old(self).refresh_token_ttl,
            final(self).access_token.ttl == old(self).access_token.ttl,
            final(self).users == old(self).users,
            final(self).mfa == old(self).mfa,
            final(self).failed_auth == old(self).failed_auth,
            final(self).access_token == old(self).access_token,
            r is Err ==> *final(self) == *old(self),
            match old(self).authenticated(claims, now) {
                Err(e) => r == Err::<Login, SessionImpersonateError>(SessionImpersonateError::Auth(e)),
                Ok(a) => if !a.admin {
                    r == Err::<Login, SessionImpersonateError>(
                        SessionImpersonateError::Auth(
                            AuthError::Authorize(crate::models::AuthorizeError::Admin),
                        ),
                    )
                } else if !user_exists(old(self).users@, user_id) {
                    r == Err::<Login, SessionImpersonateError>(SessionImpersonateError::NotFound)
                } else if has_id(old(self).sessions.sessions@, session_id) || hash_in_use(
                    old(self).sessions.sessions@,
                    refresh_token_hash,
                ) {
                    r == Err::<Login, SessionImpersonateError>(SessionImpersonateError::Internal)
                } else {
                    r matches Ok(login) && {
                        let s = Session {
                            id: session_id,
                            user_id,
                            device_name: None,
                            refresh_token_hash,
                            created_at: now,
                            updated_at: now,
                        };
                        &&& login.user.id == user_id
                        &&& old(self).users@.contains(login.user)
                        &&& login.session == s
                        &&& final(self).sessions.sessions@ == old(self).sessions.sessions@.push(s)
                        &&& login.access_token == issued(
                            login.user,
                            session_id,
                            refresh_token_hash,
                            now,
                            old(self).access_token.ttl,
                        )
                    }
                },
            },
    {
        let auth = match self.authenticate(claims, now) {
            Ok(a) => a,
            Err(e) => return Err(SessionImpersonateError::Auth(e)),
        };
        match auth.ensure_admin() {
            Ok(()) => {},
            Err(e) => return Err(SessionImpersonateError::Auth(AuthError::Authorize(e))),
        }
        let u = match self.find_user(user_id) {
            Some(u) => u,
            None => return Err(SessionImpersonateError::NotFound),
        };
        let session = Session {
            id: session_id,
            user_id,
            device_name: None,
            refresh_token_hash,
            created_at: now,
            updated_at: now,
        };
        match self.sessions.create(session.clone()) {
            Ok(()) => {},
            Err(_) => return Err(SessionImpersonateError::Internal),
        }
        let user = self.users[u].clone();
        let access_token = self.access_token.issue(&user, session_id, refresh_token_hash, now);
        proof {
            assert(self.users@[u as int] == user);
        }
        Ok(Login { user, session, access_token })
    }

    /// Creates a disabled TOTP device with `secret` for a user (oneself, or
    /// anyone for an administrator), or resets the user's disabled one.
    pub fn initialize_mfa(
        &mut self,
        claims: Option<AccessTokenClaims>,
        now: u64,
        user_id: UserIdOrSelf,
        secret: Vec<u8>,
    ) -> (r: Result<(), MfaInitializeError>)
        requires
            old(self).wf(),
        ensures
            final(self).wf(),
            final(self).config == old(self).config,
            final(self).refresh_token_ttl == old(self).refresh_token_ttl,
            final(self).access_token.ttl == old(self).access_token.ttl,
            final(self).users == old(self).users,
            final(self).sessions == old(self).sessions,
            final(self).failed_auth == old(self).failed_auth,
            final(self).access_token == old(self).access_token,
            r is Err ==> *final(self) == *old(self),
            match old(self).authenticated(claims, now) {
                Err(e) => r == Err::<(), MfaInitializeError>(MfaInitializeError::Auth(e)),
                Ok(a) => {
                    let target = user_id.resolved(a.user_id);
                    if !(a.user_id == target || a.admin) {
                        r == Err::<(), MfaInitializeError>(
                            MfaInitializeError::Auth(
                                AuthError::Authorize(crate::models::AuthorizeError::Admin),
                            ),
                        )
                    } else if !user_exists(old(self).users@, target) {
                        r == Err::<(), MfaInitializeError>(MfaInitializeError::NotFound)
                    } else if mfa_on(old(self).mfa.records@, target) {
                        r == Err::<(), MfaInitializeError>(MfaInitializeError::AlreadyEnabled)
                    } else {
                        &&& r is Ok
                        &&& has_device(final(self).mfa.records@, target)
                        &&& !mfa_on(final(self).mfa.records@, target)
                        &&& exists|i: int|
                            crate::mfa::record_at(final(self).mfa.records@, i, target)
                                && final(self).mfa.records@[i].secret == secret
                    }
                },
            },
    {
        let target = match self.authorize_self_or_admin(claims, now, user_id) {
            Ok(t) => t,
            Err(e) => return Err(MfaInitializeError::Auth(e)),
        };
        if self.find_user(target).is_none() {
            return Err(MfaInitializeError::NotFound);
        }
        self.mfa.initialize(target, secret)
    }

    /// Enables a user's initialized TOTP device, given the verdict on a first
    /// code, and stores the digest of a fresh recovery code.
    pub fn enable_mfa(
        &mut self,
        claims: Option<AccessTokenClaims>,
        now: u64,
        user_id: UserIdOrSelf,
        totp_valid: bool,
        recovery_code_hash: TokenHash,
    ) -> (r: Result<(), MfaEnableError>)
        requires
            old(self).wf(),
        ensures
            final(self).wf(),
            final(self).config == old(self).config,
            final(self).refresh_token_ttl == old(self).refresh_token_ttl,
            final(self).access_token.ttl == old(self).access_token.ttl,
            final(self).users == old(self).users,
            final(self).sessions == old(self).sessions,
            final(self).failed_auth == old(self).failed_auth,
            final(self).access_token == old(self).access_token,
            r is Err ==> *final(self) == *old(self),
            match old(self).authenticated(claims, now) {
                Err(e) => r == Err::<(), MfaEnableError>(MfaEnableError::Auth(e)),
                Ok(a) => {
                    let target = user_id.resolved(a.user_id);
                    if !(a.user_id == target || a.admin) {
                        r == Err::<(), MfaEnableError>(
                            MfaEnableError::Auth(
                                AuthError::Authorize(crate::models::AuthorizeError::Admin),
                            ),
                        )
                    } else if !user_exists(old(self).users@, target) {
                        r == Err::<(), MfaEnableError>(MfaEnableError::NotFound)
                    } else if !has_device(old(self).mfa.records@, target) {
                        r == Err::<(), MfaEnableError>(MfaEnableError::NotInitialized)
                    } else if mfa_on(old(self).mfa.records@, target) {
                        r == Err::<(), MfaEnableError>(MfaEnableError::AlreadyEnabled)
                    } else if !totp_valid {
                        r == Err::<(), MfaEnableError>(MfaEnableError::InvalidCode)
                    } else {
                        &&& r is Ok
                        &&& mfa_on(final(self).mfa.records@, target)
                        &&& forall|h: TokenHash|
                            recovery_matches(final(self).mfa.records@, target, h) <==> h
                                == recovery_code_hash
                    }
                },
            },
    {
        let target = match self.authorize_self_or_admin(claims, now, user_id) {
            Ok(t) => t,
            Err(e) => return Err(MfaEnableError::Auth(e)),
        };
        if self.find_user(target).is_none() {
            return Err(MfaEnableError::NotFound);
        }
        self.mfa.enable(target, totp_valid, recovery_code_hash)
    }

    /// Deletes a user's TOTP device and recovery code.
    pub fn disable_mfa(&mut self, claims: Option<AccessTokenClaims>, now: u64, user_id: UserIdOrSelf) -> (r:
        Result<(), MfaDisableError>)
        requires
            old(self).wf(),
        ensures
            final(self).wf(),
            final(self).config == old(self).config,
            final(self).refresh_token_ttl == old(self).refresh_token_ttl,
            final(self).access_token.ttl == old(self).access_token.ttl,
            final(self).users == old(self).users,
            final(self).sessions == old(self).sessions,
            final(self).failed_auth == old(self).failed_auth,
            final(self).access_token == old(self).access_token,
            r is Err ==> *final(self) == *old(self),
            match old(self).authenticated(claims, now) {
                Err(e) => r == Err::<(), MfaDisableError>(MfaDisableError::Auth(e)),
                Ok(a) => {
                    let target = user_id.resolved(a.user_id);
                    if !(a.user_id == target || a.admin) {
                        r == Err::<(), MfaDisableError>(
                            MfaDisableError::Auth(
                                AuthError::Authorize(crate::models::AuthorizeError::Admin),
                            ),
                        )
                    } else if !user_exists(old(self).users@, target) {
                        r == Err::<(), MfaDisableError>(MfaDisableError::NotFound)
                    } else if !mfa_on(old(self).mfa.records@, target) {
                        r == Err::<(), MfaDisableError>(MfaDisableError::NotEnabled)
                    } else {
                        r is Ok && !has_device(final(self).mfa.records@, target)
                    }
                },
            },
    {
        let target = match self.authorize_self_or_admin(claims, now, user_id) {
            Ok(t) => t,
            Err(e) => return Err(MfaDisableError::Auth(e)),
        };
        if self.find_user(target).is_none() {
            return Err(MfaDisableError::NotFound);
        }
        if !self.mfa.is_enabled(target) {
            return Err(MfaDisableError::NotEnabled);
        }
        self.mfa.disable(target);
        Ok(())
    }
}

/// Each element that `f` keeps shows up in `s.filter(f)`.
proof fn lemma_filter_member(s: Seq<Session>, f: spec_fn(Session) -> bool, k: int)
    requires
        0 <= k < s.len(),
        f(s[k]),
    ensures
        exists|j: int| 0 <= j < s.filter(f).len() && s.filter(f)[j] == s[k],
    decreases s.len(),
{
    reveal(Seq::filter);
    if k == s.len() - 1 {
        let j = s.drop_last().filter(f).len() as int;
        assert(s.filter(f)[j] == s[k]);
    } else {
        lemma_filter_member(s.drop_last(), f, k);
        let j = choose|j: int| 0 <= j < s.drop_last().filter(f).len() && s.drop_last().filter(f)[j] == s.drop_last()[k];
        assert(s.filter(f)[j] == s[k]);
    }
}

/// After a successful login both the user's name and email address count no
/// failures, whichever identifier the failed attempts used.
pub proof fn lemma_cleared_user_counts_zero(
    before: FailedAuthCountService,
    after: FailedAuthCountService,
    u: User,
)
    requires
        cleared_user(before, after, u),
    ensures
        forall|t: u64| after.count_for(u.name@, t) == 0,
        u.email matches Some(e) ==> forall|t: u64| after.count_for(e@, t) == 0,
{
    match u.email {
        Some(e) => {
            let mid = choose|mid: FailedAuthCountService|
                cleared(before, mid, lower_of(u.name@)) && cleared(mid, after, lower_of(e@));
            assert forall|t: u64| after.count_for(u.name@, t) == 0 by {
                if lower_of(u.name@) != lower_of(e@) {
                    assert(after.count(lower_of(u.name@), t) == mid.count(lower_of(u.name@), t));
                }
            }
        },
        None => {},
    }
}

/// Enumeration resistance: with no CAPTCHA in the way, a login naming no
/// account and a login naming an account with a wrong password are refused
/// with the same error.
pub proof fn lemma_unknown_user_like_wrong_password(
    service: SessionFeatureServiceImpl,
    unknown: SessionCreateCommand,
    unknown_inputs: LoginInputs,
    known: SessionCreateCommand,
    known_inputs: LoginInputs,
)
    requires
        resolved(service.users@, unknown.name_or_email@) is None,
        resolved(service.users@, known.name_or_email@) is Some,
        !known_inputs.password_valid,
        !service.captcha_gated(unknown.name_or_email@, unknown_inputs),
        !service.captcha_gated(known.name_or_email@, known_inputs),
    ensures
        service.login_rejection(unknown, unknown_inputs) == service.login_rejection(known, known_inputs),
        service.login_rejection(unknown, unknown_inputs) == Some(SessionCreateError::InvalidCredentials),
{
}

/// Lockout: once `threshold` failures for an identifier have been recorded at
/// the current moment (each step adding one), a login for it without a passing
/// CAPTCHA is refused with the CAPTCHA error, whatever the password.
pub proof fn lemma_failures_require_captcha(
    service: SessionFeatureServiceImpl,
    states: Seq<FailedAuthCountService>,
    cmd: SessionCreateCommand,
    inputs: LoginInputs,
)
    requires
        states.len() == service.config.login_fails_before_captcha + 1,
        service.config.login_fails_before_captcha < u64::MAX,
        states.last() == service.failed_auth,
        expiry(inputs.now, states[0].ttl) > inputs.now,
        forall|i: int|
            0 <= i < states.len() - 1 ==> bumped(
                #[trigger] states[i],
                states[i + 1],
                lower_of(cmd.name_or_email@),
                inputs.now,
            ),
        !inputs.captcha_passed,
    ensures
        service.login_rejection(cmd, inputs) == Some(SessionCreateError::Recaptcha),
{
    crate::failed_auth::lemma_failures_accumulate(states, lower_of(cmd.name_or_email@), inputs.now);
}

/// A recovery code is spent once used: when MFA is on for the account (enabled
/// again after a recovery login) and the stored recovery code is no longer the
/// one presented, a login with the old code and no valid TOTP code fails the
/// second factor.
pub proof fn lemma_spent_recovery_code_fails_login(
    service: SessionFeatureServiceImpl,
    cmd: SessionCreateCommand,
    inputs: LoginInputs,
    spent: TokenHash,
)
    requires
        resolved(service.users@, cmd.name_or_email@) matches Some(i) && mfa_on(
            service.mfa.records@,
            service.users@[i].id,
        ) && !recovery_matches(service.mfa.records@, service.users@[i].id, spent),
        !service.captcha_gated(cmd.name_or_email@, inputs),
        inputs.password_valid,
        inputs.mfa.recovery_code_hash == Some(spent),
        !inputs.mfa.totp_valid,
    ensures
        service.login_rejection(cmd, inputs) == Some(SessionCreateError::MfaFailed),
{
}

/// A failed login never lowers a count: while counters live at `now`, the
/// failures recorded for a user's name and email address leave every count at
/// `now` at least where it was.
pub proof fn lemma_failed_login_never_lowers(
    before: FailedAuthCountService,
    after: FailedAuthCountService,
    u: User,
    now: u64,
)
    requires
        bumped_user(before, after, u, now),
        expiry(now, before.ttl) > now,
    ensures
        forall|k: Seq<char>| #[trigger] after.count(k, now) >= before.count(k, now),
{
    match u.email {
        Some(e) => {
            let mid = choose|mid: FailedAuthCountService|
                bumped(before, mid, lower_of(u.name@), now) && bumped(mid, after, lower_of(e@), now);
            lemma_bump_never_lowers(before, mid, lower_of(u.name@), now);
            lemma_bump_never_lowers(mid, after, lower_of(e@), now);
            assert forall|k: Seq<char>| #[trigger] after.count(k, now) >= before.count(k, now) by {
                assert(after.count(k, now) >= mid.count(k, now));
                assert(mid.count(k, now) >= before.count(k, now));
            }
        },
        None => {
            lemma_bump_never_lowers(before, after, lower_of(u.name@), now);
        },
    }
}

} // verus!
