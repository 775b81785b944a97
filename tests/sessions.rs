use academy::access_token::AccessTokenClaims;
use academy::internal::{
    internal_get_user, internal_get_user_by_email, InternalAuthError, InternalGetUserError,
};
use academy::mfa::{MfaAuthentication, MfaDisableError, MfaEnableError, MfaInitializeError};
use academy::models::{
    AuthError, AuthenticateError, AuthorizeError, Session, TokenHash, User, UserIdOrSelf,
};
use academy::session_feature::{
    Login, LoginInputs, SessionCreateCommand, SessionCreateError, SessionDeleteError,
    SessionFeatureConfig, SessionFeatureServiceImpl, SessionGetCurrentError,
    SessionImpersonateError, SessionRefreshError,
};

const ALICE: u128 = 1;
const BOB: u128 = 2;
const ADMIN: u128 = 3;
const CAROL: u128 = 4;

fn hash(n: u128) -> TokenHash {
    TokenHash { hi: n, lo: n + 1000 }
}

fn user(id: u128, name: &str, email: Option<&str>, admin: bool, enabled: bool) -> User {
    User {
        id,
        name: name.to_string(),
        email: email.map(|e| e.to_string()),
        email_verified: true,
        enabled,
        admin,
        password_login: true,
        last_login: None,
    }
}

fn service() -> SessionFeatureServiceImpl {
    let mut s = SessionFeatureServiceImpl::new(
        SessionFeatureConfig { login_fails_before_captcha: 3 },
        300,
        2_592_000,
        3600,
    );
    assert!(s.add_user(user(ALICE, "alice", Some("alice@example.com"), false, true)));
    assert!(s.add_user(user(BOB, "bob", Some("bob@example.com"), false, true)));
    assert!(s.add_user(user(ADMIN, "admin", None, true, true)));
    assert!(s.add_user(user(CAROL, "carol", None, false, false)));
    s
}

fn cmd(name_or_email: &str) -> SessionCreateCommand {
    SessionCreateCommand { name_or_email: name_or_email.to_string(), device_name: None }
}

fn inputs(password_valid: bool, session: u128, now: u64) -> LoginInputs {
    LoginInputs {
        captcha_passed: false,
        password_valid,
        mfa: MfaAuthentication { totp_valid: false, recovery_code_hash: None },
        session_id: session,
        refresh_token_hash: hash(session),
        now,
    }
}

fn login(s: &mut SessionFeatureServiceImpl, name: &str, session: u128, now: u64) -> Login {
    s.create_session(&cmd(name), inputs(true, session, now)).unwrap()
}

#[test]
fn login_refresh_and_stale_refresh_token() {
    let mut s = service();
    let first = login(&mut s, "alice", 10, 1000);
    assert_eq!(first.user.id, ALICE);
    assert_eq!(first.session.id, 10);
    assert_eq!(first.session.user_id, ALICE);
    assert_eq!(first.session.refresh_token_hash, hash(10));
    assert_eq!(first.access_token.session_id, 10);
    assert_eq!(first.access_token.exp, 1300);
    assert_ne!(first.access_token.refresh_token_hash, hash(11));

    let second = s.refresh_session(hash(10), hash(11), 1010).unwrap();
    assert_eq!(second.session.id, 10);
    assert_eq!(second.session.refresh_token_hash, hash(11));
    assert_ne!(second.session.refresh_token_hash, first.session.refresh_token_hash);
    assert_eq!(second.session.created_at, 1000);
    assert_eq!(second.session.updated_at, 1010);

    let again = s.refresh_session(hash(10), hash(12), 1020);
    assert!(matches!(again, Err(SessionRefreshError::InvalidRefreshToken)));
    assert_eq!(s.sessions.sessions.len(), 1);
}

#[test]
fn three_failures_require_captcha() {
    let mut s = service();
    for i in 0..3u64 {
        let r = s.create_session(&cmd("bob"), inputs(false, 20 + i as u128, 1000 + i));
        assert!(matches!(r, Err(SessionCreateError::InvalidCredentials)));
    }
    assert_eq!(s.failed_auth.get("bob", 1003), 3);
    assert_eq!(s.failed_auth.get("bob@example.com", 1003), 3);
    let r = s.create_session(&cmd("bob"), inputs(true, 30, 1004));
    assert!(matches!(r, Err(SessionCreateError::Recaptcha)));
    let r = s.create_session(&cmd("bob"), inputs(false, 31, 1004));
    assert!(matches!(r, Err(SessionCreateError::Recaptcha)));
    // The email address took the same failures.
    let r = s.create_session(&cmd("bob@example.com"), inputs(true, 32, 1004));
    assert!(matches!(r, Err(SessionCreateError::Recaptcha)));

    let mut with_captcha = inputs(true, 33, 1005);
    with_captcha.captcha_passed = true;
    let ok = s.create_session(&cmd("bob"), with_captcha).unwrap();
    assert_eq!(ok.user.id, BOB);
    assert_eq!(s.failed_auth.get("bob", 1005), 0);
    assert_eq!(s.failed_auth.get("bob@example.com", 1005), 0);
}

#[test]
fn failed_counts_decay_after_ttl() {
    let mut s = service();
    for i in 0..3u64 {
        let _ = s.create_session(&cmd("bob"), inputs(false, 40 + i as u128, 1000));
    }
    assert_eq!(s.failed_auth.get("bob", 1000), 3);
    assert_eq!(s.failed_auth.get("bob", 1000 + 3600), 0);
    let ok = s.create_session(&cmd("bob"), inputs(true, 50, 1000 + 3600));
    assert!(ok.is_ok());
}

#[test]
fn failed_counts_ignore_case() {
    let mut s = service();
    s.failed_auth.increment("Bob", 1000);
    s.failed_auth.increment("BOB", 1000);
    assert_eq!(s.failed_auth.get("bob", 1000), 2);
    s.failed_auth.reset("bOb");
    assert_eq!(s.failed_auth.get("BOB", 1000), 0);
}

#[test]
fn success_clears_counts_of_name_and_email() {
    let mut s = service();
    let r = s.create_session(&cmd("alice@example.com"), inputs(false, 60, 1000));
    assert!(matches!(r, Err(SessionCreateError::InvalidCredentials)));
    let r = s.create_session(&cmd("alice"), inputs(false, 61, 1001));
    assert!(matches!(r, Err(SessionCreateError::InvalidCredentials)));
    assert_eq!(s.failed_auth.get("alice", 1001), 2);
    assert_eq!(s.failed_auth.get("alice@example.com", 1001), 2);
    login(&mut s, "alice@example.com", 62, 1002);
    assert_eq!(s.failed_auth.get("alice", 1002), 0);
    assert_eq!(s.failed_auth.get("alice@example.com", 1002), 0);
}

#[test]
fn unknown_user_looks_like_wrong_password() {
    let mut s = service();
    let unknown = s.create_session(&cmd("mallory"), inputs(true, 70, 1000));
    let wrong = s.create_session(&cmd("alice"), inputs(false, 71, 1000));
    assert!(matches!(unknown, Err(SessionCreateError::InvalidCredentials)));
    assert!(matches!(wrong, Err(SessionCreateError::InvalidCredentials)));
    // The unknown identifier counts under the typed name only.
    assert_eq!(s.failed_auth.get("mallory", 1000), 1);
    assert_eq!(s.failed_auth.get("alice", 1000), 1);
    assert_eq!(s.sessions.sessions.len(), 0);
}

#[test]
fn disabled_user_is_refused_after_password() {
    let mut s = service();
    let r = s.create_session(&cmd("carol"), inputs(true, 80, 1000));
    assert!(matches!(r, Err(SessionCreateError::UserDisabled)));
    let r = s.create_session(&cmd("carol"), inputs(false, 81, 1000));
    assert!(matches!(r, Err(SessionCreateError::InvalidCredentials)));
    assert_eq!(s.sessions.sessions.len(), 0);
}

#[test]
fn colliding_session_is_internal_error() {
    let mut s = service();
    login(&mut s, "alice", 90, 1000);
    let r = s.create_session(&cmd("bob"), inputs(true, 90, 1001));
    assert!(matches!(r, Err(SessionCreateError::Internal)));
    assert_eq!(s.sessions.sessions.len(), 1);
}

fn claims_of(l: &Login) -> Option<AccessTokenClaims> {
    Some(l.access_token)
}

fn enable_mfa_for_alice(s: &mut SessionFeatureServiceImpl, recovery: TokenHash, now: u64) {
    let l = login(s, "alice", 100 + now as u128, now);
    let c = claims_of(&l);
    s.initialize_mfa(c, now, UserIdOrSelf::Slf, vec![1, 2, 3]).unwrap();
    s.enable_mfa(c, now, UserIdOrSelf::Slf, true, recovery).unwrap();
}

#[test]
fn mfa_totp_and_failure() {
    let mut s = service();
    enable_mfa_for_alice(&mut s, hash(500), 1000);
    let mut i = inputs(true, 110, 1100);
    let r = s.create_session(&cmd("alice"), i);
    assert!(matches!(r, Err(SessionCreateError::MfaFailed)));
    assert_eq!(s.failed_auth.get("alice", 1100), 1);
    assert_eq!(s.failed_auth.get("alice@example.com", 1100), 1);
    i.mfa.totp_valid = true;
    i.session_id = 111;
    i.refresh_token_hash = hash(111);
    assert!(s.create_session(&cmd("alice"), i).is_ok());
    assert!(s.mfa.is_enabled(ALICE));
}

#[test]
fn recovery_code_works_once() {
    let mut s = service();
    enable_mfa_for_alice(&mut s, hash(500), 1000);
    let mut i = inputs(true, 120, 1100);
    i.mfa.recovery_code_hash = Some(hash(500));
    assert!(s.create_session(&cmd("alice"), i).is_ok());
    assert!(!s.mfa.is_enabled(ALICE));

    // MFA enabled again, with a fresh recovery code: the old one fails.
    enable_mfa_for_alice(&mut s, hash(501), 1200);
    let mut again = inputs(true, 121, 1300);
    again.mfa.recovery_code_hash = Some(hash(500));
    let r = s.create_session(&cmd("alice"), again);
    assert!(matches!(r, Err(SessionCreateError::MfaFailed)));
}

#[test]
fn mfa_feature_errors() {
    let mut s = service();
    let l = login(&mut s, "alice", 130, 1000);
    let c = claims_of(&l);
    assert_eq!(
        s.enable_mfa(c, 1000, UserIdOrSelf::Slf, true, hash(1)),
        Err(MfaEnableError::NotInitialized)
    );
    assert_eq!(s.disable_mfa(c, 1000, UserIdOrSelf::Slf), Err(MfaDisableError::NotEnabled));
    s.initialize_mfa(c, 1000, UserIdOrSelf::Slf, vec![7]).unwrap();
    assert_eq!(
        s.enable_mfa(c, 1000, UserIdOrSelf::Slf, false, hash(1)),
        Err(MfaEnableError::InvalidCode)
    );
    s.enable_mfa(c, 1000, UserIdOrSelf::Slf, true, hash(1)).unwrap();
    assert_eq!(
        s.enable_mfa(c, 1000, UserIdOrSelf::Slf, true, hash(2)),
        Err(MfaEnableError::AlreadyEnabled)
    );
    assert_eq!(
        s.initialize_mfa(c, 1000, UserIdOrSelf::Slf, vec![8]),
        Err(MfaInitializeError::AlreadyEnabled)
    );
    assert_eq!(
        s.initialize_mfa(c, 1000, UserIdOrSelf::UserId(BOB), vec![8]),
        Err(MfaInitializeError::Auth(AuthError::Authorize(AuthorizeError::Admin)))
    );
    assert_eq!(
        s.initialize_mfa(None, 1000, UserIdOrSelf::Slf, vec![8]),
        Err(MfaInitializeError::Auth(AuthError::Authenticate(AuthenticateError::InvalidToken)))
    );
    let a = login(&mut s, "admin", 131, 1000);
    assert_eq!(
        s.disable_mfa(claims_of(&a), 1000, UserIdOrSelf::UserId(99)),
        Err(MfaDisableError::NotFound)
    );
    s.disable_mfa(claims_of(&a), 1000, UserIdOrSelf::UserId(ALICE)).unwrap();
    assert!(!s.mfa.is_enabled(ALICE));
}

#[test]
fn access_token_expires_and_is_revoked_on_logout() {
    let mut s = service();
    let l = login(&mut s, "alice", 140, 1000);
    let c = claims_of(&l);
    let auth = s.authenticate(c, 1100).unwrap();
    assert_eq!(auth.user_id, ALICE);
    assert_eq!(auth.session_id, 140);
    assert!(!auth.admin);
    assert!(s.authenticate(c, 1300).is_err());
    assert!(s.authenticate(None, 1100).is_err());

    s.delete_current_session(c, 1100).unwrap();
    assert_eq!(
        s.authenticate(c, 1101),
        Err(AuthError::Authenticate(AuthenticateError::InvalidToken))
    );
    assert!(s.access_token.is_invalidated(hash(140), 1299));
    assert!(!s.access_token.is_invalidated(hash(140), 1400));
}

#[test]
fn expired_refresh_token_removes_session() {
    let mut s = service();
    login(&mut s, "alice", 150, 1000);
    let r = s.refresh_session(hash(150), hash(151), 1000 + 2_592_001);
    assert!(matches!(r, Err(SessionRefreshError::InvalidRefreshToken)));
    assert_eq!(s.sessions.sessions.len(), 0);
}

#[test]
fn get_current_and_list_sessions() {
    let mut s = service();
    let a1 = login(&mut s, "alice", 160, 1000);
    login(&mut s, "alice", 161, 1001);
    login(&mut s, "bob", 162, 1002);
    let cur = s.get_current_session(claims_of(&a1), 1003).unwrap();
    assert_eq!(cur.id, 160);
    let mine = s.list_by_user(claims_of(&a1), 1003, UserIdOrSelf::Slf).unwrap();
    let ids: Vec<u128> = mine.iter().map(|x: &Session| x.id).collect();
    assert_eq!(ids, vec![160, 161]);
    assert_eq!(
        s.list_by_user(claims_of(&a1), 1003, UserIdOrSelf::UserId(BOB)).unwrap_err(),
        AuthError::Authorize(AuthorizeError::Admin)
    );
    s.delete_current_session(claims_of(&a1), 1004).unwrap();
    assert!(matches!(
        s.get_current_session(claims_of(&a1), 1005),
        Err(SessionGetCurrentError::Auth(_))
    ));
}

#[test]
fn ok_current() {
    let mut s = service();
    let l = login(&mut s, "alice", 170, 1000);
    s.delete_session(claims_of(&l), 1000, UserIdOrSelf::Slf, 170).unwrap();
    assert_eq!(s.sessions.sessions.len(), 0);
}

#[test]
fn ok_self() {
    let mut s = service();
    let l = login(&mut s, "alice", 171, 1000);
    login(&mut s, "alice", 172, 1000);
    s.delete_session(claims_of(&l), 1000, UserIdOrSelf::Slf, 172).unwrap();
    assert_eq!(s.sessions.sessions.len(), 1);
    assert_eq!(s.sessions.sessions[0].id, 171);
}

#[test]
fn ok_admin() {
    let mut s = service();
    let a = login(&mut s, "admin", 173, 1000);
    login(&mut s, "alice", 174, 1000);
    s.delete_session(claims_of(&a), 1000, UserIdOrSelf::UserId(ALICE), 174).unwrap();
    assert_eq!(s.sessions.sessions.len(), 1);
}

#[test]
fn delete_session_unauthenticated() {
    let mut s = service();
    login(&mut s, "alice", 175, 1000);
    let r = s.delete_session(None, 1000, UserIdOrSelf::UserId(ALICE), 175);
    assert_eq!(
        r,
        Err(SessionDeleteError::Auth(AuthError::Authenticate(AuthenticateError::InvalidToken)))
    );
}

#[test]
fn delete_session_unauthorized() {
    let mut s = service();
    login(&mut s, "alice", 176, 1000);
    let b = login(&mut s, "bob", 177, 1000);
    let r = s.delete_session(claims_of(&b), 1000, UserIdOrSelf::UserId(ALICE), 176);
    assert_eq!(r, Err(SessionDeleteError::Auth(AuthError::Authorize(AuthorizeError::Admin))));
    assert_eq!(s.sessions.sessions.len(), 2);
}

#[test]
fn not_found() {
    let mut s = service();
    let a = login(&mut s, "admin", 178, 1000);
    let r = s.delete_session(claims_of(&a), 1000, UserIdOrSelf::UserId(ALICE), 999);
    assert_eq!(r, Err(SessionDeleteError::NotFound));
}

#[test]
fn delete_session_different_user() {
    let mut s = service();
    let a = login(&mut s, "admin", 179, 1000);
    login(&mut s, "alice", 180, 1000);
    let r = s.delete_session(claims_of(&a), 1000, UserIdOrSelf::UserId(BOB), 180);
    assert_eq!(r, Err(SessionDeleteError::NotFound));
    assert_eq!(s.sessions.sessions.len(), 2);
}

#[test]
fn delete_by_user_logs_out_everywhere() {
    let mut s = service();
    let a1 = login(&mut s, "alice", 181, 1000);
    let a2 = login(&mut s, "alice", 182, 1000);
    login(&mut s, "bob", 183, 1000);
    s.delete_by_user(claims_of(&a1), 1001, UserIdOrSelf::Slf).unwrap();
    assert_eq!(s.sessions.sessions.len(), 1);
    assert_eq!(s.sessions.sessions[0].user_id, BOB);
    assert!(s.authenticate(claims_of(&a2), 1002).is_err());
    let r = s.refresh_session(hash(182), hash(184), 1002);
    assert!(matches!(r, Err(SessionRefreshError::InvalidRefreshToken)));
}

#[test]
fn impersonate_ok() {
    let mut s = service();
    let a = login(&mut s, "admin", 190, 1000);
    let l = s.impersonate(claims_of(&a), 1000, ALICE, 191, hash(191)).unwrap();
    assert_eq!(l.user.id, ALICE);
    assert_eq!(l.session.id, 191);
    assert_eq!(l.session.device_name, None);
    assert_eq!(l.access_token.user_id, ALICE);
}

#[test]
fn impersonate_unauthenticated() {
    let mut s = service();
    let r = s.impersonate(None, 1000, ALICE, 192, hash(192));
    assert!(matches!(
        r,
        Err(SessionImpersonateError::Auth(AuthError::Authenticate(
            AuthenticateError::InvalidToken
        )))
    ));
}

#[test]
fn impersonate_unauthorized() {
    let mut s = service();
    let b = login(&mut s, "bob", 193, 1000);
    let r = s.impersonate(claims_of(&b), 1000, ALICE, 194, hash(194));
    assert!(matches!(
        r,
        Err(SessionImpersonateError::Auth(AuthError::Authorize(AuthorizeError::Admin)))
    ));
}

#[test]
fn impersonate_user_not_found() {
    let mut s = service();
    let a = login(&mut s, "admin", 195, 1000);
    let r = s.impersonate(claims_of(&a), 1000, 99, 196, hash(196));
    assert!(matches!(r, Err(SessionImpersonateError::NotFound)));
}

#[test]
fn internal_user_lookups() {
    let s = service();
    assert_eq!(s.get_user(BOB).unwrap().name, "bob");
    assert!(s.get_user(99).is_none());
    assert_eq!(s.get_user_by_email(&"alice@example.com".to_string()).unwrap().id, ALICE);
    assert!(s.get_user_by_email(&"nobody@example.com".to_string()).is_none());
}

#[test]
fn captcha_required_after_threshold() {
    let mut s = service();
    assert!(!s.captcha_required("bob", 1000));
    for i in 0..3u64 {
        let _ = s.create_session(&cmd("bob"), inputs(false, 300 + i as u128, 1000));
    }
    assert!(s.captcha_required("bob", 1000));
    assert!(s.captcha_required("BOB@example.com", 1000));
    assert!(!s.captcha_required("alice", 1000));
}

#[test]
fn second_logout_with_same_token_fails() {
    let mut s = service();
    let l = login(&mut s, "alice", 310, 1000);
    s.delete_current_session(claims_of(&l), 1010).unwrap();
    assert_eq!(
        s.delete_current_session(claims_of(&l), 1020),
        Err(AuthError::Authenticate(AuthenticateError::InvalidToken))
    );
}

#[test]
fn admin_delete_revokes_users_token() {
    let mut s = service();
    let a = login(&mut s, "admin", 320, 1000);
    let u = login(&mut s, "alice", 321, 1000);
    s.delete_session(claims_of(&a), 1001, UserIdOrSelf::UserId(ALICE), 321).unwrap();
    assert_eq!(
        s.list_by_user(claims_of(&u), 1002, UserIdOrSelf::Slf).unwrap_err(),
        AuthError::Authenticate(AuthenticateError::InvalidToken)
    );
}

#[test]
fn internal_lookups_need_auth_token() {
    let s = service();
    let auth = "auth".to_string();
    let shop = "shop".to_string();
    assert_eq!(internal_get_user(&s, Some(&auth), BOB).unwrap().name, "bob");
    assert_eq!(internal_get_user(&s, Some(&auth), 99).unwrap_err(), InternalGetUserError::NotFound);
    assert_eq!(
        internal_get_user(&s, Some(&shop), BOB).unwrap_err(),
        InternalGetUserError::Auth(InternalAuthError::InvalidToken)
    );
    let email = "alice@example.com".to_string();
    assert_eq!(internal_get_user_by_email(&s, Some(&auth), &email).unwrap().id, ALICE);
    assert_eq!(
        internal_get_user_by_email(&s, None, &email).unwrap_err(),
        InternalGetUserError::Auth(InternalAuthError::InvalidToken)
    );
}
