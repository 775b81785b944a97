use vstd::prelude::*;

use crate::models::{AuthError, TokenHash, UserId};

verus! {

/// What a user presented as second factor. Checking a TOTP code against the
/// device secret (within the clock-skew window) happens outside this library;
/// its verdict is `totp_valid`. A recovery code is handed over as its digest.
#[derive(Debug, Clone, Copy, PartialEq, Eq, Structural)]
pub struct MfaAuthentication {
    pub totp_valid: bool,
    pub recovery_code_hash: Option<TokenHash>,
}

#[derive(Debug, Clone, Copy, PartialEq, Eq, Structural)]
pub enum MfaAuthenticateResult {
    /// A valid TOTP code.
    Totp,
    /// The recovery code: the caller disables MFA for the user.
    Reset,
}

#[derive(Debug, Clone, Copy, PartialEq, Eq, Structural)]
pub enum MfaAuthenticateError {
    Failed,
}

#[derive(Debug, Clone, Copy, PartialEq, Eq, Structural)]
pub enum MfaInitializeError {
    AlreadyEnabled,
    Auth(AuthError),
    NotFound,
}

#[derive(Debug, Clone, Copy, PartialEq, Eq, Structural)]
pub enum MfaEnableError {
    AlreadyEnabled,
    NotInitialized,
    InvalidCode,
    Auth(AuthError),
    NotFound,
}

#[derive(Debug, Clone, Copy, PartialEq, Eq, Structural)]
pub enum MfaDisableError {
    NotEnabled,
    Auth(AuthError),
    NotFound,
}

/// The TOTP device of a user, and the digest of the recovery code issued when
/// it was enabled.
#[derive(Debug)]
pub struct MfaRecord {
    pub user_id: UserId,
    pub secret: Vec<u8>,
    pub enabled: bool,
    pub recovery_code_hash: Option<TokenHash>,
}

/// The MFA state of all users: at most one device per user.
#[derive(Debug)]
pub struct MfaStore {
    pub records: Vec<MfaRecord>,
}

pub open spec fn record_at(s: Seq<MfaRecord>, i: int, user_id: UserId) -> bool {
    0 <= i < s.len() && s[i].user_id == user_id
}

/// Whether the user has a device at all.
pub open spec fn has_device(s: Seq<MfaRecord>, user_id: UserId) -> bool {
    exists|i: int| record_at(s, i, user_id)
}

/// Whether the user has enabled MFA.
pub open spec fn mfa_on(s: Seq<MfaRecord>, user_id: UserId) -> bool {
    exists|i: int| record_at(s, i, user_id) && s[i].enabled
}

/// Whether `h` is the digest of the user's current recovery code.
pub open spec fn recovery_matches(s: Seq<MfaRecord>, user_id: UserId, h: TokenHash) -> bool {
    exists|i: int| record_at(s, i, user_id) && s[i].recovery_code_hash == Some(h)
}

/// Outcome of checking a second factor against the stored state.
pub open spec fn mfa_outcome(s: Seq<MfaRecord>, user_id: UserId, cmd: MfaAuthentication) -> Result<
    MfaAuthenticateResult,
    MfaAuthenticateError,
> {
    if cmd.totp_valid && mfa_on(s, user_id) {
        Ok(MfaAuthenticateResult::Totp)
    } else if cmd.recovery_code_hash matches Some(h) && recovery_matches(s, user_id, h) {
        Ok(MfaAuthenticateResult::Reset)
    } else {
        Err(MfaAuthenticateError::Failed)
    }
}

impl MfaStore {
    pub open spec fn wf(&self) -> bool {
        forall|i: int, j: int|
            0 <= i < self.records@.len() && 0 <= j < self.records@.len() && i != j
                ==> self.records@[i].user_id != self.records@[j].user_id
    }

    pub fn new() -> (r: Self)
        ensures
            r.wf(),
            r.records@.len() == 0,
    {
        MfaStore { records: Vec::new() }
    }

    fn find(&self, user_id: UserId) -> (r: Option<usize>)
        ensures
            r matches Some(i) ==> record_at(self.records@, i as int, user_id),
            r is None ==> !has_device(self.records@, user_id),
    {
        let mut i: usize = 0;
        while i < self.records.len()
            invariant
                i <= self.records@.len(),
                forall|j: int| 0 <= j < i ==> self.records@[j].user_id != user_id,
            decreases self.records@.len() - i,
        {
            if self.records[i].user_id == user_id {
                return Some(i);
            }
            i = i + 1;
        }
        None
    }

    /// Whether the user has enabled MFA.
    pub fn is_enabled(&self, user_id: UserId) -> (r: bool)
        requires
            self.wf(),
        ensures
            r == mfa_on(self.records@, user_id),
    {
        match self.find(user_id) {
            Some(i) => self.records[i].enabled,
            None => false,
        }
    }

    /// The secret of the user's device, for the TOTP check.
    pub fn secret_of(&self, user_id: UserId) -> (r: Option<&Vec<u8>>)
        requires
            self.wf(),
        ensures
            r is Some <==> has_device(self.records@, user_id),
            r matches Some(secret) ==> exists|i: int|
                record_at(self.records@, i, user_id) && *secret == self.records@[i].secret,
    {
        match self.find(user_id) {
            Some(i) => Some(&self.records[i].secret),
            None => None,
        }
    }

    /// Checks a second factor: a valid TOTP code first, then the recovery
    /// code. Changes nothing: on `Reset` the caller disables MFA.
    pub fn authenticate(&self, user_id: UserId, cmd: MfaAuthentication) -> (r: Result<
        MfaAuthenticateResult,
        MfaAuthenticateError,
    >)
        requires
            self.wf(),
        ensures
            r == mfa_outcome(self.records@, user_id, cmd),
    {
        match self.find(user_id) {
            Some(i) => {
                let rec = &self.records[i];
                proof {
                    assert forall|j: int| record_at(self.records@, j, user_id) implies j == i by {}
                }
                if cmd.totp_valid && rec.enabled {
                    return Ok(MfaAuthenticateResult::Totp);
                }
                match (cmd.recovery_code_hash, rec.recovery_code_hash) {
                    (Some(h), Some(stored)) => {
                        if h == stored {
                            Ok(MfaAuthenticateResult::Reset)
                        } else {
                            Err(MfaAuthenticateError::Failed)
                        }
                    },
                    _ => Err(MfaAuthenticateError::Failed),
                }
            },
            None => Err(MfaAuthenticateError::Failed),
        }
    }

    /// Creates a disabled device with `secret`, or resets the user's disabled one.
    pub fn initialize(&mut self, user_id: UserId, secret: Vec<u8>) -> (r: Result<(), MfaInitializeError>)
        requires
            old(self).wf(),
        ensures
            final(self).wf(),
            r is Err <==> mfa_on(old(self).records@, user_id),
            r is Err ==> r == Err::<(), MfaInitializeError>(MfaInitializeError::AlreadyEnabled)
                && *final(self) == *old(self),
            r is Ok ==> has_device(final(self).records@, user_id) && !mfa_on(
                final(self).records@,
                user_id,
            ) && forall|h: TokenHash| !recovery_matches(final(self).records@, user_id, h),
            r is Ok ==> exists|i: int|
                record_at(final(self).records@, i, user_id) && final(self).records@[i].secret
                    == secret,
            r is Ok ==> {
                let rec = MfaRecord { user_id, secret, enabled: false, recovery_code_hash: None };
                if has_device(old(self).records@, user_id) {
                    exists|i: int|
                        record_at(old(self).records@, i, user_id) && final(self).records@ == old(
                            self,
                        ).records@.update(i, rec)
                } else {
                    final(self).records@ == old(self).records@.push(rec)
                }
            },
    {
        let ghost before = self.records@;
        let rec = MfaRecord { user_id, secret, enabled: false, recovery_code_hash: None };
        match self.find(user_id) {
            Some(i) => {
                if self.records[i].enabled {
                    return Err(MfaInitializeError::AlreadyEnabled);
                }
                self.records.set(i, rec);
                proof {
                    assert forall|j: int| record_at(self.records@, j, user_id) implies j == i by {}
                    assert(record_at(self.records@, i as int, user_id));
                }
            },
            None => {
                self.records.push(rec);
                proof {
                    let n = before.len() as int;
                    assert forall|j: int| 0 <= j < n implies before[j].user_id != user_id by {
                        if before[j].user_id == user_id {
                            assert(record_at(before, j, user_id));
                        }
                    }
                    assert(record_at(self.records@, n, user_id));
                    assert forall|j: int| record_at(self.records@, j, user_id) implies j == n by {}
                }
            },
        }
        Ok(())
    }

    /// Enables the user's device, given the verdict on a first TOTP code, and
    /// stores the digest of a fresh recovery code.
    pub fn enable(&mut self, user_id: UserId, totp_valid: bool, recovery_code_hash: TokenHash) -> (r:
        Result<(), MfaEnableError>)
        requires
            old(self).wf(),
        ensures
            final(self).wf(),
            !has_device(old(self).records@, user_id) ==> r == Err::<(), MfaEnableError>(
                MfaEnableError::NotInitialized,
            ),
            has_device(old(self).records@, user_id) && mfa_on(old(self).records@, user_id) ==> r
                == Err::<(), MfaEnableError>(MfaEnableError::AlreadyEnabled),
            has_device(old(self).records@, user_id) && !mfa_on(old(self).records@, user_id)
                && !totp_valid ==> r == Err::<(), MfaEnableError>(MfaEnableError::InvalidCode),
            r is Ok <==> has_device(old(self).records@, user_id) && !mfa_on(
                old(self).records@,
                user_id,
            ) && totp_valid,
            r is Err ==> *final(self) == *old(self),
            r is Ok ==> mfa_on(final(self).records@, user_id) && forall|h: TokenHash|
                recovery_matches(final(self).records@, user_id, h) <==> h == recovery_code_hash,
            r is Ok ==> exists|i: int|
                {
                    &&& record_at(old(self).records@, i, user_id)
                    &&& final(self).records@.len() == old(self).records@.len()
                    &&& forall|j: int|
                        0 <= j < old(self).records@.len() && j != i ==> final(self).records@[j]
                            == old(self).records@[j]
                    &&& final(self).records@[i].user_id == user_id
                    &&& final(self).records@[i].secret@ == old(self).records@[i].secret@
                    &&& final(self).records@[i].enabled
                    &&& final(self).records@[i].recovery_code_hash == Some(recovery_code_hash)
                },
    {
        let ghost before = self.records@;
        match self.find(user_id) {
            Some(i) => {
                proof {
                    assert forall|j: int| record_at(self.records@, j, user_id) implies j == i by {}
                }
                if self.records[i].enabled {
                    return Err(MfaEnableError::AlreadyEnabled);
                }
                if !totp_valid {
                    return Err(MfaEnableError::InvalidCode);
                }
                let secret = self.records[i].secret.clone();
                let rec = MfaRecord {
                    user_id,
                    secret,
                    enabled: true,
                    recovery_code_hash: Some(recovery_code_hash),
                };
                self.records.set(i, rec);
                proof {
                    assert forall|j: int| record_at(self.records@, j, user_id) implies j == i by {}
                    assert(record_at(self.records@, i as int, user_id));
                }
                Ok(())
            },
            None => Err(MfaEnableError::NotInitialized),
        }
    }

    /// Deletes the user's device and recovery code, if any.
    pub fn disable(&mut self, user_id: UserId)
        requires
            old(self).wf(),
        ensures
            final(self).wf(),
            !has_device(final(self).records@, user_id),
            !has_device(old(self).records@, user_id) ==> final(self).records@ == old(
                self,
            ).records@,
            has_device(old(self).records@, user_id) ==> exists|i: int|
                record_at(old(self).records@, i, user_id) && final(self).records@ == old(
                    self,
                ).records@.remove(i),
    {
        let ghost before = self.records@;
        match self.find(user_id) {
            Some(i) => {
                self.records.remove(i);
                proof {
                    assert forall|j: int| !record_at(self.records@, j, user_id) by {
                        if record_at(self.records@, j, user_id) {
                            if j < i {
                                assert(self.records@[j] == before[j]);
                            } else {
                                assert(self.records@[j] == before[j + 1]);
                            }
                        }
                    }
                }
            },
            None => {},
        }
    }
}

/// A recovery code works once: after it was used (and MFA disabled), or after
/// MFA was enabled again with a fresh recovery code, presenting the same code
/// without a valid TOTP code fails.
pub proof fn lemma_used_recovery_code_fails(
    records: Seq<MfaRecord>,
    user_id: UserId,
    used: TokenHash,
    cmd: MfaAuthentication,
)
    requires
        !recovery_matches(records, user_id, used),
        cmd.recovery_code_hash == Some(used),
        !cmd.totp_valid,
    ensures
        mfa_outcome(records, user_id, cmd) == Err::<MfaAuthenticateResult, MfaAuthenticateError>(
            MfaAuthenticateError::Failed,
        ),
{
}

} // verus!
