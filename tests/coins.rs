use academy::coin::{
    add_coins, get_balance, internal_add_coins, ApiBalance, Balance, CoinAddCoinsError,
    CoinGetBalanceError, InternalAddCoinsError,
    CoinRepoAddCoinsError, CoinServiceImpl,
};
use academy::models::{AuthError, AuthenticateError, AuthorizeError, TokenHash, User, UserIdOrSelf};
use academy::paypal::{
    check_capture_coin_order, check_create_coin_order, record_capture, record_coin_order,
    PaypalApiServiceConfig, PaypalApiServiceImpl, PaypalCaptureCoinOrderError,
    PaypalCaptureOrderError, PaypalCreateCoinOrderError, PaypalCreateOrderError,
    PaypalFeatureConfig, PaypalOrders,
};
use academy::session_feature::{
    Login, LoginInputs, SessionCreateCommand, SessionFeatureConfig, SessionFeatureServiceImpl,
};
use academy::internal::InternalAuthError;
use academy::mfa::MfaAuthentication;

const FOO: u128 = 1;
const ADMIN: u128 = 2;

fn service() -> SessionFeatureServiceImpl {
    let mut s = SessionFeatureServiceImpl::new(
        SessionFeatureConfig { login_fails_before_captcha: 3 },
        300,
        2_592_000,
        3600,
    );
    for (id, name, admin, verified) in [(FOO, "foo", false, true), (ADMIN, "admin", true, true), (3, "bar", false, false)] {
        s.add_user(User {
            id,
            name: name.to_string(),
            email: None,
            email_verified: verified,
            enabled: true,
            admin,
            password_login: true,
            last_login: None,
        });
    }
    s
}

fn login(s: &mut SessionFeatureServiceImpl, name: &str, session: u128) -> Login {
    let inputs = LoginInputs {
        captcha_passed: false,
        password_valid: true,
        mfa: MfaAuthentication { totp_valid: false, recovery_code_hash: None },
        session_id: session,
        refresh_token_hash: TokenHash { hi: session, lo: 0 },
        now: 1000,
    };
    let cmd = SessionCreateCommand { name_or_email: name.to_string(), device_name: None };
    s.create_session(&cmd, inputs).unwrap()
}

#[test]
fn api_balance_from_balance() {
    let b = Balance { coins: 1337, withheld_coins: 42 };
    assert_eq!(ApiBalance::from(b), ApiBalance { coins: 1337, withheld_coins: 42 });
    assert_eq!(Balance::default(), Balance { coins: 0, withheld_coins: 0 });
}

#[test]
fn get_balance_and_add_coins() {
    let mut c = CoinServiceImpl::new();
    assert_eq!(c.get_balance(FOO), Balance { coins: 0, withheld_coins: 0 });
    assert_eq!(c.add_coins(FOO, 1337, false), Ok(Balance { coins: 1337, withheld_coins: 0 }));
    assert_eq!(c.add_coins(FOO, 42, true), Ok(Balance { coins: 1337, withheld_coins: 42 }));
    assert_eq!(c.add_coins(FOO, -35, false), Ok(Balance { coins: 1302, withheld_coins: 42 }));
    assert_eq!(c.get_balance(FOO), Balance { coins: 1302, withheld_coins: 42 });
    assert_eq!(c.get_balance(ADMIN), Balance { coins: 0, withheld_coins: 0 });
}

#[test]
fn remove_coins_not_enough_coins() {
    let mut c = CoinServiceImpl::new();
    assert_eq!(c.add_coins(FOO, -1, false), Err(CoinRepoAddCoinsError::NotEnoughCoins));
    assert_eq!(c.add_coins(FOO, -1, true), Err(CoinRepoAddCoinsError::NotEnoughCoins));
    c.add_coins(FOO, 10, false).unwrap();
    assert_eq!(c.add_coins(FOO, -11, false), Err(CoinRepoAddCoinsError::NotEnoughCoins));
    assert_eq!(c.get_balance(FOO), Balance { coins: 10, withheld_coins: 0 });
    c.add_coins(FOO, i64::MAX - 10, false).unwrap();
    assert_eq!(c.add_coins(FOO, 1, false), Err(CoinRepoAddCoinsError::Overflow));
}

#[test]
fn get_balance_ok() {
    let mut s = service();
    let mut c = CoinServiceImpl::new();
    c.add_coins(FOO, 1337, false).unwrap();
    let l = login(&mut s, "foo", 10);
    let r = get_balance(&s, &c, Some(l.access_token), 1000, UserIdOrSelf::Slf);
    assert_eq!(r, Ok(Balance { coins: 1337, withheld_coins: 0 }));
}

#[test]
fn get_balance_unauthenticated() {
    let s = service();
    let c = CoinServiceImpl::new();
    let r = get_balance(&s, &c, None, 1000, UserIdOrSelf::Slf);
    assert_eq!(
        r,
        Err(CoinGetBalanceError::Auth(AuthError::Authenticate(AuthenticateError::InvalidToken)))
    );
}

#[test]
fn get_balance_unauthorized() {
    let mut s = service();
    let c = CoinServiceImpl::new();
    let l = login(&mut s, "foo", 11);
    let r = get_balance(&s, &c, Some(l.access_token), 1000, UserIdOrSelf::UserId(ADMIN));
    assert_eq!(
        r,
        Err(CoinGetBalanceError::Auth(AuthError::Authorize(AuthorizeError::Admin)))
    );
}

#[test]
fn get_balance_user_not_found() {
    let mut s = service();
    let c = CoinServiceImpl::new();
    let l = login(&mut s, "admin", 12);
    let r = get_balance(&s, &c, Some(l.access_token), 1000, UserIdOrSelf::UserId(99));
    assert_eq!(r, Err(CoinGetBalanceError::UserNotFound));
}

#[test]
fn add_coins_ok() {
    let mut s = service();
    let mut c = CoinServiceImpl::new();
    let l = login(&mut s, "admin", 13);
    let r = add_coins(&s, &mut c, Some(l.access_token), 1000, UserIdOrSelf::UserId(FOO), 42);
    assert_eq!(r, Ok(Balance { coins: 42, withheld_coins: 0 }));
}

#[test]
fn add_coins_unauthenticated() {
    let s = service();
    let mut c = CoinServiceImpl::new();
    let r = add_coins(&s, &mut c, None, 1000, UserIdOrSelf::UserId(FOO), 42);
    assert_eq!(
        r,
        Err(CoinAddCoinsError::Auth(AuthError::Authenticate(AuthenticateError::InvalidToken)))
    );
}

#[test]
fn add_coins_unauthorized() {
    let mut s = service();
    let mut c = CoinServiceImpl::new();
    let l = login(&mut s, "foo", 14);
    let r = add_coins(&s, &mut c, Some(l.access_token), 1000, UserIdOrSelf::Slf, 42);
    assert_eq!(r, Err(CoinAddCoinsError::Auth(AuthError::Authorize(AuthorizeError::Admin))));
}

#[test]
fn add_coins_user_not_found() {
    let mut s = service();
    let mut c = CoinServiceImpl::new();
    let l = login(&mut s, "admin", 15);
    let r = add_coins(&s, &mut c, Some(l.access_token), 1000, UserIdOrSelf::UserId(99), 42);
    assert_eq!(r, Err(CoinAddCoinsError::UserNotFound));
}

#[test]
fn add_coins_not_enough_coins() {
    let mut s = service();
    let mut c = CoinServiceImpl::new();
    let l = login(&mut s, "admin", 16);
    let r = add_coins(&s, &mut c, Some(l.access_token), 1000, UserIdOrSelf::UserId(FOO), -1337);
    assert_eq!(r, Err(CoinAddCoinsError::NotEnoughCoins));
}

#[test]
fn paypal_config_default_url() {
    let c = PaypalApiServiceConfig::new(None, "id".to_string(), "secret".to_string());
    assert_eq!(c.base_url, "https://api.paypal.com");
    let c = PaypalApiServiceConfig::new(
        Some("http://127.0.0.1:8004".to_string()),
        "id".to_string(),
        "secret".to_string(),
    );
    assert_eq!(c.base_url, "http://127.0.0.1:8004");
    let api = PaypalApiServiceImpl { config: c };
    assert_eq!(api.client_id(), "id");
}

#[test]
fn paypal_price() {
    assert_eq!(PaypalApiServiceImpl::price(1337), (13, 37));
    assert_eq!(PaypalApiServiceImpl::price(5), (0, 5));
}

const RANGE: PaypalFeatureConfig = PaypalFeatureConfig { purchase_min: 100, purchase_max: 5000 };

#[test]
fn amount_too_low() {
    let s = service();
    let r = check_create_coin_order(&RANGE, &s, None, 1000, 99, true);
    assert_eq!(r, Err(PaypalCreateCoinOrderError::InvalidAmount(100, 5000)));
}

#[test]
fn amount_too_high() {
    let s = service();
    let r = check_create_coin_order(&RANGE, &s, None, 1000, 5001, true);
    assert_eq!(r, Err(PaypalCreateCoinOrderError::InvalidAmount(100, 5000)));
}

#[test]
fn create_coin_order_unauthenticated() {
    let s = service();
    let r = check_create_coin_order(&RANGE, &s, None, 1000, 1337, true);
    assert_eq!(
        r,
        Err(PaypalCreateCoinOrderError::Auth(AuthError::Authenticate(
            AuthenticateError::InvalidToken
        )))
    );
}

#[test]
fn create_coin_order_unauthorized() {
    let mut s = service();
    let l = login(&mut s, "bar", 20);
    let r = check_create_coin_order(&RANGE, &s, Some(l.access_token), 1000, 1337, true);
    assert_eq!(
        r,
        Err(PaypalCreateCoinOrderError::Auth(AuthError::Authorize(AuthorizeError::EmailVerified)))
    );
}

#[test]
fn create_coin_order_incomplete_invoice_info() {
    let mut s = service();
    let l = login(&mut s, "foo", 21);
    let r = check_create_coin_order(&RANGE, &s, Some(l.access_token), 1000, 1337, false);
    assert_eq!(r, Err(PaypalCreateCoinOrderError::IncompleteInvoiceInfo));
}

#[test]
fn create_order_failure() {
    let mut orders = PaypalOrders::new();
    let r = record_coin_order(&mut orders, FOO, 1337, 1000, Err(PaypalCreateOrderError::Failed));
    assert_eq!(r, Err(PaypalCreateCoinOrderError::CreateOrderFailure));
    assert_eq!(orders.orders.len(), 0);
}

#[test]
fn get_next_invoice_number() {
    let mut orders = PaypalOrders::new();
    assert_eq!(orders.next_invoice_number(), Some(1));
    record_coin_order(&mut orders, FOO, 1337, 1000, Ok("asdf1234-1".to_string())).unwrap();
    record_coin_order(&mut orders, FOO, 42, 1001, Ok("asdf1234-2".to_string())).unwrap();
    assert_eq!(orders.orders[0].invoice_number, 1);
    assert_eq!(orders.orders[1].invoice_number, 2);
    assert_eq!(orders.next_invoice_number(), Some(3));
    orders.orders[0].invoice_number = 100;
    assert_eq!(orders.next_invoice_number(), Some(101));
    let dup = record_coin_order(&mut orders, FOO, 1, 1002, Ok("asdf1234-1".to_string()));
    assert_eq!(dup, Err(PaypalCreateCoinOrderError::Internal));
}

#[test]
fn create_and_capture() {
    let mut s = service();
    let mut orders = PaypalOrders::new();
    let mut coins = CoinServiceImpl::new();
    let l = login(&mut s, "foo", 22);
    let claims = Some(l.access_token);
    let buyer = check_create_coin_order(&RANGE, &s, claims, 1000, 1337, true).unwrap();
    assert_eq!(buyer, FOO);
    let id = record_coin_order(&mut orders, buyer, 1337, 1000, Ok("asdf1234".to_string())).unwrap();
    assert_eq!(id, "asdf1234");

    let i = check_capture_coin_order(&orders, &s, claims, 1300 - 1, &id, true).unwrap();
    let b = record_capture(&mut orders, &mut coins, i, 1299, Ok(())).unwrap();
    assert_eq!(b, Balance { coins: 1337, withheld_coins: 0 });
    assert_eq!(orders.orders[0].captured_at, Some(1299));

    let again = check_capture_coin_order(&orders, &s, claims, 1299, &id, true);
    assert_eq!(again, Err(PaypalCaptureCoinOrderError::NotFound));
}

#[test]
fn capture_coin_order_different_user() {
    let mut s = service();
    let mut orders = PaypalOrders::new();
    record_coin_order(&mut orders, ADMIN, 1337, 1000, Ok("asdf1234".to_string())).unwrap();
    let l = login(&mut s, "foo", 23);
    let r = check_capture_coin_order(&orders, &s, Some(l.access_token), 1000, &"asdf1234".to_string(), true);
    assert_eq!(r, Err(PaypalCaptureCoinOrderError::NotFound));
}

#[test]
fn capture_coin_order_incomplete_invoice_info() {
    let mut s = service();
    let mut orders = PaypalOrders::new();
    record_coin_order(&mut orders, FOO, 1337, 1000, Ok("asdf1234".to_string())).unwrap();
    let l = login(&mut s, "foo", 24);
    let r = check_capture_coin_order(&orders, &s, Some(l.access_token), 1000, &"asdf1234".to_string(), false);
    assert_eq!(r, Err(PaypalCaptureCoinOrderError::IncompleteInvoiceInfo));
}

#[test]
fn capture_order_failure() {
    let mut orders = PaypalOrders::new();
    let mut coins = CoinServiceImpl::new();
    record_coin_order(&mut orders, FOO, 1337, 1000, Ok("asdf1234".to_string())).unwrap();
    let r = record_capture(&mut orders, &mut coins, 0, 1001, Err(PaypalCaptureOrderError::Failed));
    assert_eq!(r, Err(PaypalCaptureCoinOrderError::CaptureOrderFailure));
    assert_eq!(orders.orders[0].captured_at, None);
    assert_eq!(coins.get_balance(FOO), Balance { coins: 0, withheld_coins: 0 });
}

#[test]
fn internal_add_coins_withholds_until_invoice_info() {
    let s = service();
    let mut c = CoinServiceImpl::new();
    let shop = "shop".to_string();
    assert_eq!(
        internal_add_coins(&s, &mut c, Some(&shop), FOO, 1234, false),
        Ok(Balance { coins: 0, withheld_coins: 1234 })
    );
    assert_eq!(
        internal_add_coins(&s, &mut c, Some(&shop), FOO, 321, true),
        Ok(Balance { coins: 321, withheld_coins: 1234 })
    );
    assert_eq!(
        internal_add_coins(&s, &mut c, Some(&shop), FOO, -400, false),
        Err(InternalAddCoinsError::NotEnoughCoins)
    );
    assert_eq!(
        internal_add_coins(&s, &mut c, Some(&shop), 99, 42, true),
        Err(InternalAddCoinsError::UserNotFound)
    );
}

#[test]
fn paypal_capture_status() {
    assert!(PaypalApiServiceImpl::capture_completed(&"COMPLETED".to_string()));
    assert!(!PaypalApiServiceImpl::capture_completed(&"PENDING".to_string()));
    assert!(!PaypalApiServiceImpl::capture_completed(&"completed".to_string()));
}

#[test]
fn internal_add_coins_needs_shop_token() {
    let s = service();
    let mut c = CoinServiceImpl::new();
    let wrong = "auth".to_string();
    assert_eq!(
        internal_add_coins(&s, &mut c, Some(&wrong), FOO, 42, true),
        Err(InternalAddCoinsError::Auth(InternalAuthError::InvalidToken))
    );
    assert_eq!(
        internal_add_coins(&s, &mut c, None, FOO, 42, true),
        Err(InternalAddCoinsError::Auth(InternalAuthError::InvalidToken))
    );
    assert_eq!(c.get_balance(FOO), Balance { coins: 0, withheld_coins: 0 });
}
