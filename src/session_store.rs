use vstd::prelude::*;

use crate::models::{Session, SessionId, TokenHash, UserId};

verus! {

/// Why a session could not be stored.
#[derive(Debug, Clone, Copy, PartialEq, Eq, Structural)]
pub enum SessionStoreError {
    /// No session has that id.
    NotFound,
    /// The id or the refresh-token digest is already taken by another session.
    Conflict,
}

/// Outcome of looking up a session by the digest of a refresh token.
#[derive(Debug, Clone, Copy, PartialEq, Eq, Structural)]
pub enum AuthenticateByRefreshTokenError {
    /// No session holds that refresh token.
    Invalid,
    /// The session exists but its refresh token is past its lifetime.
    Expired(SessionId),
}

/// All live sessions.
#[derive(Debug, Clone)]
pub struct SessionStore {
    pub sessions: Vec<Session>,
}

pub open spec fn id_at(s: Seq<Session>, i: int, id: SessionId) -> bool {
    0 <= i < s.len() && s[i].id == id
}

pub open spec fn hash_at(s: Seq<Session>, i: int, h: TokenHash) -> bool {
    0 <= i < s.len() && s[i].refresh_token_hash == h
}

pub open spec fn has_id(s: Seq<Session>, id: SessionId) -> bool {
    exists|i: int| id_at(s, i, id)
}

pub open spec fn hash_in_use(s: Seq<Session>, h: TokenHash) -> bool {
    exists|i: int| hash_at(s, i, h)
}

/// Distinct ids, and distinct refresh-token digests.
pub open spec fn sessions_wf(s: Seq<Session>) -> bool {
    forall|i: int, j: int|
        0 <= i < s.len() && 0 <= j < s.len() && i != j ==> s[i].id != s[j].id
            && s[i].refresh_token_hash != s[j].refresh_token_hash
}

/// Whether a refresh token issued or rotated at `updated_at` is still usable at `now`.
pub open spec fn refresh_live(updated_at: u64, now: u64, ttl: u64) -> bool {
    now as int <= updated_at as int + ttl as int
}

/// What presenting the refresh token with digest `h` yields at `now`.
pub open spec fn refresh_lookup(s: Seq<Session>, h: TokenHash, now: u64, ttl: u64) -> Result<
    SessionId,
    AuthenticateByRefreshTokenError,
> {
    if hash_in_use(s, h) {
        let i = choose|i: int| hash_at(s, i, h);
        if refresh_live(s[i].updated_at, now, ttl) {
            Ok(s[i].id)
        } else {
            Err(AuthenticateByRefreshTokenError::Expired(s[i].id))
        }
    } else {
        Err(AuthenticateByRefreshTokenError::Invalid)
    }
}

/// `after` is `before` with the session `id` holding the digest `h` from time `now` on.
pub open spec fn rotated(before: Seq<Session>, after: Seq<Session>, id: SessionId, h: TokenHash, now: u64) -> bool {
    &&& after.len() == before.len()
    &&& forall|i: int|
        0 <= i < before.len() ==> if before[i].id == id {
            after[i] == Session { refresh_token_hash: h, updated_at: now, ..before[i] }
        } else {
            after[i] == before[i]
        }
}

impl SessionStore {
    pub open spec fn wf(&self) -> bool {
        sessions_wf(self.sessions@)
    }

    pub fn new() -> (r: Self)
        ensures
            r.wf(),
            r.sessions@.len() == 0,
    {
        SessionStore { sessions: Vec::new() }
    }

    pub fn find(&self, id: SessionId) -> (r: Option<usize>)
        ensures
            r matches Some(i) ==> id_at(self.sessions@, i as int, id),
            r is None ==> !has_id(self.sessions@, id),
    {
        let mut i: usize = 0;
        while i < self.sessions.len()
            invariant
                i <= self.sessions@.len(),
                forall|j: int| 0 <= j < i ==> self.sessions@[j].id != id,
            decreases self.sessions@.len() - i,
        {
            if self.sessions[i].id == id {
                return Some(i);
            }
            i = i + 1;
        }
        None
    }

    fn find_hash(&self, h: TokenHash) -> (r: Option<usize>)
        ensures
            r matches Some(i) ==> hash_at(self.sessions@, i as int, h),
            r is None ==> !hash_in_use(self.sessions@, h),
    {
        let mut i: usize = 0;
        while i < self.sessions.len()
            invariant
                i <= self.sessions@.len(),
                forall|j: int| 0 <= j < i ==> self.sessions@[j].refresh_token_hash != h,
            decreases self.sessions@.len() - i,
        {
            if self.sessions[i].refresh_token_hash == h {
                return Some(i);
            }
            i = i + 1;
        }
        None
    }

    /// The session with the given id.
    pub fn get(&self, id: SessionId) -> (r: Option<Session>)
        requires
            self.wf(),
        ensures
            r is None <==> !has_id(self.sessions@, id),
            r matches Some(s) ==> s.id == id && self.sessions@.contains(s),
    {
        match self.find(id) {
            Some(i) => Some(self.sessions[i].clone()),
            None => None,
        }
    }

    /// All sessions of a user, in the order they were created.
    pub fn list_by_user(&self, user_id: UserId) -> (r: Vec<Session>)
        ensures
            r@ == self.sessions@.filter(|s: Session| s.user_id == user_id),
    {
        let mut out: Vec<Session> = Vec::new();
        let mut i: usize = 0;
        while i < self.sessions.len()
            invariant
                i <= self.sessions@.len(),
                out@ == self.sessions@.subrange(0, i as int).filter(
                    |s: Session| s.user_id == user_id,
                ),
            decreases self.sessions@.len() - i,
        {
            proof {
                reveal(Seq::filter);
                assert(self.sessions@.subrange(0, i + 1).drop_last() == self.sessions@.subrange(
                    0,
                    i as int,
                ));
            }
            if self.sessions[i].user_id == user_id {
                out.push(self.sessions[i].clone());
            }
            i = i + 1;
        }
        assert(self.sessions@.subrange(0, self.sessions@.len() as int) == self.sessions@);
        out
    }

    /// Stores a new session, unless its id or its refresh-token digest is taken.
    pub fn create(&mut self, session: Session) -> (r: Result<(), SessionStoreError>)
        requires
            old(self).wf(),
        ensures
            final(self).wf(),
            r is Ok <==> !has_id(old(self).sessions@, session.id) && !hash_in_use(
                old(self).sessions@,
                session.refresh_token_hash,
            ),
            r is Ok ==> final(self).sessions@ == old(self).sessions@.push(session),
            r is Err ==> r == Err::<(), SessionStoreError>(SessionStoreError::Conflict)
                && *final(self) == *old(self),
    {
        if self.find(session.id).is_some() || self.find_hash(session.refresh_token_hash).is_some() {
            return Err(SessionStoreError::Conflict);
        }
        let ghost before = self.sessions@;
        self.sessions.push(session);
        proof {
            assert forall|i: int| 0 <= i < before.len() implies before[i].id != session.id
                && before[i].refresh_token_hash != session.refresh_token_hash by {
                if before[i].id == session.id {
                    assert(id_at(before, i, session.id));
                }
                if before[i].refresh_token_hash == session.refresh_token_hash {
                    assert(hash_at(before, i, session.refresh_token_hash));
                }
            }
        }
        Ok(())
    }

    /// Replaces the refresh-token digest of session `id` by `h`, at time `now`.
    pub fn refresh(&mut self, id: SessionId, h: TokenHash, now: u64) -> (r: Result<
        Session,
        SessionStoreError,
    >)
        requires
            old(self).wf(),
        ensures
            final(self).wf(),
            !has_id(old(self).sessions@, id) ==> r == Err::<Session, SessionStoreError>(
                SessionStoreError::NotFound,
            ),
            has_id(old(self).sessions@, id) && hash_in_use(old(self).sessions@, h) ==> r == Err::<
                Session,
                SessionStoreError,
            >(SessionStoreError::Conflict),
            r is Err ==> *final(self) == *old(self),
            r is Ok <==> has_id(old(self).sessions@, id) && !hash_in_use(old(self).sessions@, h),
            r matches Ok(s) ==> forall|i: int|
                id_at(old(self).sessions@, i, id) ==> s == (Session {
                    refresh_token_hash: h,
                    updated_at: now,
                    ..old(self).sessions@[i]
                }),
            r matches Ok(s) ==> s.id == id && s.refresh_token_hash == h && s.updated_at == now
                && rotated(old(self).sessions@, final(self).sessions@, id, h, now),
    {
        let i = match self.find(id) {
            Some(i) => i,
            None => return Err(SessionStoreError::NotFound),
        };
        if self.find_hash(h).is_some() {
            return Err(SessionStoreError::Conflict);
        }
        let ghost before = self.sessions@;
        let old_session = self.sessions[i].clone();
        let session = Session {
            id: old_session.id,
            user_id: old_session.user_id,
            device_name: old_session.device_name,
            refresh_token_hash: h,
            created_at: old_session.created_at,
            updated_at: now,
        };
        self.sessions.set(i, session.clone());
        proof {
            assert forall|j: int| 0 <= j < before.len() && j != i implies before[j].refresh_token_hash
                != h by {
                if before[j].refresh_token_hash == h {
                    assert(hash_at(before, j, h));
                }
            }
        }
        Ok(session)
    }

    /// Looks up the session that holds the refresh token with digest `h`.
    pub fn authenticate_by_refresh_token(&self, h: TokenHash, now: u64, ttl: u64) -> (r: Result<
        SessionId,
        AuthenticateByRefreshTokenError,
    >)
        requires
            self.wf(),
        ensures
            r == refresh_lookup(self.sessions@, h, now, ttl),
    {
        match self.find_hash(h) {
            Some(i) => {
                proof {
                    let j = choose|j: int| hash_at(self.sessions@, j, h);
                    assert(i == j);
                }
                let s = &self.sessions[i];
                if s.updated_at as u128 + ttl as u128 >= now as u128 {
                    Ok(s.id)
                } else {
                    Err(AuthenticateByRefreshTokenError::Expired(s.id))
                }
            },
            None => Err(AuthenticateByRefreshTokenError::Invalid),
        }
    }

    /// Removes session `id`, handing it back if it existed.
    pub fn delete(&mut self, id: SessionId) -> (r: Option<Session>)
        requires
            old(self).wf(),
        ensures
            final(self).wf(),
            r is None <==> !has_id(old(self).sessions@, id),
            r is None ==> *final(self) == *old(self),
            r matches Some(s) ==> s.id == id && exists|i: int|
                id_at(old(self).sessions@, i, id) && s == old(self).sessions@[i]
                    && final(self).sessions@ == old(self).sessions@.remove(i),
            !has_id(final(self).sessions@, id),
    {
        match self.find(id) {
            Some(i) => {
                let ghost before = self.sessions@;
                let s = self.sessions.remove(i);
                proof {
                    assert(id_at(before, i as int, id));
                    assert forall|j: int| !id_at(self.sessions@, j, id) by {
                        if id_at(self.sessions@, j, id) {
                            if j < i {
                                assert(self.sessions@[j] == before[j]);
                            } else {
                                assert(self.sessions@[j] == before[j + 1]);
                            }
                        }
                    }
                }
                Some(s)
            },
            None => None,
        }
    }

    /// Removes every session of `user_id`, handing them back.
    pub fn delete_by_user(&mut self, user_id: UserId) -> (r: Vec<Session>)
        requires
            old(self).wf(),
        ensures
            final(self).wf(),
            r@ == old(self).sessions@.filter(|s: Session| s.user_id == user_id),
            final(self).sessions@ == old(self).sessions@.filter(|s: Session| s.user_id != user_id),
    {
        let ghost before = self.sessions@;
        let mut kept: Vec<Session> = Vec::new();
        let mut removed: Vec<Session> = Vec::new();
        let ghost mut origin: Seq<int> = Seq::empty();
        let mut i: usize = 0;
        while i < self.sessions.len()
            invariant
                i <= self.sessions@.len(),
                self.sessions@ == before,
                sessions_wf(before),
                kept@ == before.subrange(0, i as int).filter(|s: Session| s.user_id != user_id),
                removed@ == before.subrange(0, i as int).filter(|s: Session| s.user_id == user_id),
                origin.len() == kept@.len(),
                forall|a: int| 0 <= a < origin.len() ==> 0 <= #[trigger] origin[a] < i && kept@[a] == before[origin[a]],
                forall|a: int, b: int| 0 <= a < b < origin.len() ==> origin[a] < origin[b],
            decreases self.sessions@.len() - i,
        {
            proof {
                reveal(Seq::filter);
                assert(before.subrange(0, i + 1).drop_last() == before.subrange(0, i as int));
            }
            if self.sessions[i].user_id == user_id {
                removed.push(self.sessions[i].clone());
            } else {
                kept.push(self.sessions[i].clone());
                proof {
                    origin = origin.push(i as int);
                }
            }
            i = i + 1;
        }
        assert(before.subrange(0, before.len() as int) == before);
        proof {
            assert forall|a: int, b: int|
                0 <= a < kept@.len() && 0 <= b < kept@.len() && a != b implies kept@[a].id
                != kept@[b].id && kept@[a].refresh_token_hash != kept@[b].refresh_token_hash by {
                if a < b {
                    assert(origin[a] < origin[b]);
                } else {
                    assert(origin[b] < origin[a]);
                }
            }
        }
        self.sessions = kept;
        removed
    }
}

/// Rotation retires the old refresh token: once session `id` has been given
/// the new digest `h`, the digest it held before no longer authenticates.
pub proof fn lemma_rotated_token_is_invalid(
    before: Seq<Session>,
    after: Seq<Session>,
    id: SessionId,
    old_hash: TokenHash,
    h: TokenHash,
    now: u64,
    later: u64,
    ttl: u64,
)
    requires
        sessions_wf(before),
        hash_in_use(before, old_hash),
        (exists|i: int| id_at(before, i, id) && before[i].refresh_token_hash == old_hash),
        !hash_in_use(before, h),
        rotated(before, after, id, h, now),
    ensures
        refresh_lookup(after, old_hash, later, ttl) == Err::<SessionId, AuthenticateByRefreshTokenError>(
            AuthenticateByRefreshTokenError::Invalid,
        ),
{
    let k = choose|i: int| id_at(before, i, id) && before[i].refresh_token_hash == old_hash;
    assert forall|j: int| !hash_at(after, j, old_hash) by {
        if hash_at(after, j, old_hash) {
            if before[j].id == id {
                assert(hash_at(before, j, h));
            } else {
                assert(j != k);
            }
        }
    }
}

/// A session just stored is found by its own refresh token while that token
/// lives: a login followed by a refresh keeps the session id.
pub proof fn lemma_new_session_refreshable(before: Seq<Session>, s: Session, now: u64, ttl: u64)
    requires
        sessions_wf(before.push(s)),
        refresh_live(s.updated_at, now, ttl),
    ensures
        refresh_lookup(before.push(s), s.refresh_token_hash, now, ttl) == Ok::<
            SessionId,
            AuthenticateByRefreshTokenError,
        >(s.id),
{
    let all = before.push(s);
    let n = before.len() as int;
    assert(hash_at(all, n, s.refresh_token_hash));
    let i = choose|i: int| hash_at(all, i, s.refresh_token_hash);
    assert(i == n);
}

} // verus!
