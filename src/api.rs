use vstd::prelude::*;

use crate::models::{UserId, UserIdOrSelf};
use crate::text::{lower_of, to_lowercase};

verus! {

/// The 128 bits of the UUID that a text spells, as `uuid::Uuid::parse_str`
/// reads it, or `None` when the text spells none.
pub uninterp spec fn uuid_of(s: Seq<char>) -> Option<u128>;

/// Relies on `uuid::Uuid::parse_str`: whether the text is a UUID (simple,
/// hyphenated, braced or URN form) and, if so, its 128 bits; both depend on
/// the text alone, and an empty text is no UUID.
#[verifier::external_body]
pub(crate) fn parse_uuid(s: &str) -> (r: Option<u128>)
    ensures
        r == uuid_of(s@),
        s@.len() == 0 ==> r is None,
{
    match uuid::Uuid::parse_str(s) {
        Ok(u) => Some(u.as_u128()),
        Err(_) => None,
    }
}

/// A user id in a request path: a UUID, or `me` / `self` in any case.
#[derive(Debug, Clone, Copy, PartialEq, Eq, Structural)]
pub enum ApiUserIdOrSelf {
    UserId(UserId),
    Slf,
}

/// What a path segment stands for, given the UUID it spells (if any) and its
/// lower-case form.
pub open spec fn user_id_or_self_of(uuid: Option<u128>, lower: Seq<char>) -> Option<ApiUserIdOrSelf> {
    match uuid {
        Some(id) => Some(ApiUserIdOrSelf::UserId(id)),
        None => if lower == "me"@ || lower == "self"@ {
            Some(ApiUserIdOrSelf::Slf)
        } else {
            None
        },
    }
}

impl ApiUserIdOrSelf {
    /// Reads a path segment, given the UUID it spells (if any) and its
    /// lower-case form. A UUID wins; otherwise `me` and `self` mean the
    /// caller; anything else is no user id.
    pub fn from_parts(uuid: Option<u128>, lower: &String) -> (r: Option<ApiUserIdOrSelf>)
        ensures
            r == user_id_or_self_of(uuid, lower@),
    {
        match uuid {
            Some(id) => Some(ApiUserIdOrSelf::UserId(id)),
            None => {
                let me = "me".to_owned();
                let slf = "self".to_owned();
                proof {
                    reveal_strlit("me");
                    reveal_strlit("self");
                }
                if *lower == me || *lower == slf {
                    Some(ApiUserIdOrSelf::Slf)
                } else {
                    None
                }
            },
        }
    }

    /// Reads a user id from a request path segment.
    pub fn parse(s: &str) -> (r: Option<ApiUserIdOrSelf>)
        ensures
            r == user_id_or_self_of(uuid_of(s@), lower_of(s@)),
    {
        let uuid = parse_uuid(s);
        let lower = to_lowercase(s);
        ApiUserIdOrSelf::from_parts(uuid, &lower)
    }
}

impl From<ApiUserIdOrSelf> for UserIdOrSelf {
    fn from(value: ApiUserIdOrSelf) -> (r: Self) {
        match value {
            ApiUserIdOrSelf::UserId(id) => UserIdOrSelf::UserId(id),
            ApiUserIdOrSelf::Slf => UserIdOrSelf::Slf,
        }
    }
}

impl vstd::std_specs::convert::FromSpecImpl<ApiUserIdOrSelf> for UserIdOrSelf {
    open spec fn obeys_from_spec() -> bool {
        true
    }

    open spec fn from_spec(v: ApiUserIdOrSelf) -> Self {
        match v {
            ApiUserIdOrSelf::UserId(id) => UserIdOrSelf::UserId(id),
            ApiUserIdOrSelf::Slf => UserIdOrSelf::Slf,
        }
    }
}

} // verus!
