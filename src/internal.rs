use vstd::prelude::*;

use crate::models::{User, UserId};
use crate::session_feature::{user_exists, SessionFeatureServiceImpl};

verus! {

/// The internal token was missing, badly signed, or meant for another audience.
#[derive(Debug, Clone, Copy, PartialEq, Eq, Structural)]
pub enum InternalAuthError {
    InvalidToken,
}

/// Whether an internal token for `audience` admits a call that needs `expected`.
pub open spec fn audience_ok(audience: Option<&String>, expected: Seq<char>) -> bool {
    audience matches Some(a) && a@ == expected
}

/// Checks the audience of an internal service token. Checking its signature
/// happens outside this library: `audience` is that of a token whose
/// signature checked out, or `None`.
pub fn authenticate_internal(audience: Option<&String>, expected: &str) -> (r: Result<
    (),
    InternalAuthError,
>)
    ensures
        r is Ok <==> audience_ok(audience, expected@),
        r is Err ==> r == Err::<(), InternalAuthError>(InternalAuthError::InvalidToken),
{
    match audience {
        Some(a) => {
            let e = expected.to_owned();
            if *a == e {
                Ok(())
            } else {
                Err(InternalAuthError::InvalidToken)
            }
        },
        None => Err(InternalAuthError::InvalidToken),
    }
}

#[derive(Debug, Clone, Copy, PartialEq, Eq, Structural)]
pub enum InternalGetUserError {
    NotFound,
    Auth(InternalAuthError),
}

/// The account with the given id, for a service holding an `auth` token.
pub fn internal_get_user(
    core: &SessionFeatureServiceImpl,
    audience: Option<&String>,
    user_id: UserId,
) -> (r: Result<User, InternalGetUserError>)
    requires
        core.wf(),
    ensures
        !audience_ok(audience, "auth"@) ==> r == Err::<User, InternalGetUserError>(
            InternalGetUserError::Auth(InternalAuthError::InvalidToken),
        ),
        audience_ok(audience, "auth"@) ==> {
            &&& r is Err <==> !user_exists(core.users@, user_id)
            &&& r is Err ==> r == Err::<User, InternalGetUserError>(InternalGetUserError::NotFound)
            &&& r matches Ok(u) ==> u.id == user_id && core.users@.contains(u)
        },
{
    proof {
        reveal_strlit("auth");
    }
    match authenticate_internal(audience, "auth") {
        Ok(()) => {},
        Err(e) => return Err(InternalGetUserError::Auth(e)),
    }
    match core.get_user(user_id) {
        Some(u) => Ok(u),
        None => Err(InternalGetUserError::NotFound),
    }
}

/// The first account with the given email address, for a service holding an
/// `auth` token.
pub fn internal_get_user_by_email(
    core: &SessionFeatureServiceImpl,
    audience: Option<&String>,
    email: &String,
) -> (r: Result<User, InternalGetUserError>)
    ensures
        !audience_ok(audience, "auth"@) ==> r == Err::<User, InternalGetUserError>(
            InternalGetUserError::Auth(InternalAuthError::InvalidToken),
        ),
        audience_ok(audience, "auth"@) ==> {
            &&& r is Err <==> forall|i: int|
                0 <= i < core.users@.len() ==> !(#[trigger] core.users@[i].email matches Some(e)
                    && e@ == email@)
            &&& r is Err ==> r == Err::<User, InternalGetUserError>(InternalGetUserError::NotFound)
            &&& r matches Ok(u) ==> (u.email matches Some(e) && e@ == email@) && core.users@.contains(u)
        },
{
    proof {
        reveal_strlit("auth");
    }
    match authenticate_internal(audience, "auth") {
        Ok(()) => {},
        Err(e) => return Err(InternalGetUserError::Auth(e)),
    }
    match core.get_user_by_email(email) {
        Some(u) => Ok(u),
        None => Err(InternalGetUserError::NotFound),
    }
}

} // verus!
