use vstd::prelude::*;

use crate::access_token::AccessTokenClaims;
use crate::coin::{added, Balance, CoinRepoAddCoinsError, CoinServiceImpl};
use crate::models::{AuthError, AuthorizeError, UserId};
use crate::session_feature::SessionFeatureServiceImpl;

verus! {

/// Orders may buy between `purchase_min` and `purchase_max` Morphcoins, both included.
#[derive(Debug, Clone, Copy, PartialEq, Eq, Structural)]
pub struct PaypalFeatureConfig {
    pub purchase_min: u64,
    pub purchase_max: u64,
}

#[derive(Debug, Clone, Copy, PartialEq, Eq, Structural)]
pub enum PaypalCreateCoinOrderError {
    /// The amount is outside `min..=max`.
    InvalidAmount(u64, u64),
    Auth(AuthError),
    IncompleteInvoiceInfo,
    CreateOrderFailure,
    /// The order id that PayPal returned is already stored.
    Internal,
}

#[derive(Debug, Clone, Copy, PartialEq, Eq, Structural)]
pub enum PaypalCaptureCoinOrderError {
    Auth(AuthError),
    NotFound,
    IncompleteInvoiceInfo,
    CaptureOrderFailure,
    /// The coins of the order do not fit the user's balance.
    Internal,
}

/// PayPal refused to create an order.
#[derive(Debug, Clone, Copy, PartialEq, Eq, Structural)]
pub enum PaypalCreateOrderError {
    Failed,
}

/// PayPal refused to capture an order.
#[derive(Debug, Clone, Copy, PartialEq, Eq, Structural)]
pub enum PaypalCaptureOrderError {
    Failed,
}

/// Default address of the PayPal orders API.
pub const PAYPAL_BASE_URL: &'static str = "https://api.paypal.com";

/// Where and as whom to reach the PayPal API.
#[derive(Debug)]
pub struct PaypalApiServiceConfig {
    pub base_url: String,
    pub client_id: String,
    pub client_secret: String,
}

impl PaypalApiServiceConfig {
    /// A configuration for the live API, or for the address in `base_url_override`.
    pub fn new(base_url_override: Option<String>, client_id: String, client_secret: String) -> (r:
        Self)
        ensures
            base_url_override matches Some(u) ==> r.base_url == u,
            base_url_override is None ==> r.base_url@ == PAYPAL_BASE_URL@,
            r.client_id == client_id,
            r.client_secret == client_secret,
    {
        let base_url = match base_url_override {
            Some(u) => u,
            None => PAYPAL_BASE_URL.to_owned(),
        };
        PaypalApiServiceConfig { base_url, client_id, client_secret }
    }
}

/// The PayPal API client: its requests are sent from outside this library.
#[derive(Debug)]
pub struct PaypalApiServiceImpl {
    pub config: PaypalApiServiceConfig,
}

impl PaypalApiServiceImpl {
    /// The public client id.
    pub fn client_id(&self) -> (r: &String)
        ensures
            *r == self.config.client_id,
    {
        &self.config.client_id
    }

    /// Whether PayPal's answer to a capture request reports the payment as
    /// completed.
    pub fn capture_completed(status: &String) -> (r: bool)
        ensures
            r == (status@ == "COMPLETED"@),
    {
        let completed = "COMPLETED".to_owned();
        proof {
            reveal_strlit("COMPLETED");
        }
        *status == completed
    }

    /// The price of `coins` Morphcoins in euros and cents (a Morphcoin costs a cent).
    pub fn price(coins: u64) -> (r: (u64, u64))
        ensures
            r.0 * 100 + r.1 == coins,
            r.1 < 100,
    {
        (coins / 100, coins % 100)
    }
}

/// An order of Morphcoins paid through PayPal.
#[derive(Debug)]
pub struct PaypalCoinOrder {
    pub id: String,
    pub user_id: UserId,
    pub created_at: u64,
    pub captured_at: Option<u64>,
    pub coins: u64,
    pub invoice_number: u64,
}

impl Clone for PaypalCoinOrder {
    fn clone(&self) -> (r: Self)
        ensures
            r == *self,
    {
        PaypalCoinOrder {
            id: self.id.clone(),
            user_id: self.user_id,
            created_at: self.created_at,
            captured_at: self.captured_at,
            coins: self.coins,
            invoice_number: self.invoice_number,
        }
    }
}

/// The largest invoice number among `orders`, or zero.
pub open spec fn max_invoice(orders: Seq<PaypalCoinOrder>) -> nat
    decreases orders.len(),
{
    if orders.len() == 0 {
        0
    } else {
        let rest = max_invoice(orders.drop_last());
        if orders.last().invoice_number > rest {
            orders.last().invoice_number as nat
        } else {
            rest
        }
    }
}

pub open spec fn order_at(s: Seq<PaypalCoinOrder>, i: int, id: Seq<char>) -> bool {
    0 <= i < s.len() && s[i].id@ == id
}

/// All coin orders.
#[derive(Debug)]
pub struct PaypalOrders {
    pub orders: Vec<PaypalCoinOrder>,
}

impl PaypalOrders {
    /// Order ids are distinct.
    pub open spec fn wf(&self) -> bool {
        forall|i: int, j: int|
            0 <= i < self.orders@.len() && 0 <= j < self.orders@.len() && i != j
                ==> self.orders@[i].id@ != self.orders@[j].id@
    }

    pub fn new() -> (r: Self)
        ensures
            r.wf(),
            r.orders@.len() == 0,
    {
        PaypalOrders { orders: Vec::new() }
    }

    /// An invoice number above all those used so far, or `None` when the
    /// largest possible one is taken.
    pub fn next_invoice_number(&self) -> (r: Option<u64>)
        ensures
            r matches Some(n) ==> n == max_invoice(self.orders@) + 1,
            r is None <==> max_invoice(self.orders@) == u64::MAX,
    {
        let mut max: u64 = 0;
        let mut i: usize = 0;
        while i < self.orders.len()
            invariant
                i <= self.orders@.len(),
                max == max_invoice(self.orders@.subrange(0, i as int)),
            decreases self.orders@.len() - i,
        {
            proof {
                assert(self.orders@.subrange(0, i + 1).drop_last() == self.orders@.subrange(
                    0,
                    i as int,
                ));
            }
            if self.orders[i].invoice_number > max {
                max = self.orders[i].invoice_number;
            }
            i = i + 1;
        }
        assert(self.orders@.subrange(0, self.orders@.len() as int) == self.orders@);
        if max == u64::MAX {
            None
        } else {
            Some(max + 1)
        }
    }

    /// The position of the order with the given id.
    pub fn find(&self, id: &String) -> (r: Option<usize>)
        ensures
            r matches Some(i) ==> order_at(self.orders@, i as int, id@),
            r is None ==> !exists|i: int| order_at(self.orders@, i, id@),
    {
        let mut i: usize = 0;
        while i < self.orders.len()
            invariant
                i <= self.orders@.len(),
                forall|j: int| 0 <= j < i ==> self.orders@[j].id@ != id@,
            decreases self.orders@.len() - i,
        {
            if self.orders[i].id == *id {
                return Some(i);
            }
            i = i + 1;
        }
        None
    }
}

/// Checks a request to buy `coins` Morphcoins before PayPal is asked for an
/// order: the amount, the caller, a verified email address and complete
/// invoice info (`can_buy_coins`). Returns the buyer.
pub fn check_create_coin_order(
    config: &PaypalFeatureConfig,
    auth: &SessionFeatureServiceImpl,
    claims: Option<AccessTokenClaims>,
    now: u64,
    coins: u64,
    can_buy_coins: bool,
) -> (r: Result<UserId, PaypalCreateCoinOrderError>)
    ensures
        !(config.purchase_min <= coins <= config.purchase_max) ==> r == Err::<
            UserId,
            PaypalCreateCoinOrderError,
        >(PaypalCreateCoinOrderError::InvalidAmount(config.purchase_min, config.purchase_max)),
        config.purchase_min <= coins <= config.purchase_max ==> match auth.authenticated(
            claims,
            now,
        ) {
            Err(e) => r == Err::<UserId, PaypalCreateCoinOrderError>(
                PaypalCreateCoinOrderError::Auth(e),
            ),
            Ok(a) => if !a.email_verified {
                r == Err::<UserId, PaypalCreateCoinOrderError>(
                    PaypalCreateCoinOrderError::Auth(AuthError::Authorize(AuthorizeError::EmailVerified)),
                )
            } else if !can_buy_coins {
                r == Err::<UserId, PaypalCreateCoinOrderError>(
                    PaypalCreateCoinOrderError::IncompleteInvoiceInfo,
                )
            } else {
                r == Ok::<UserId, PaypalCreateCoinOrderError>(a.user_id)
            },
        },
{
    if !(config.purchase_min <= coins && coins <= config.purchase_max) {
        return Err(
            PaypalCreateCoinOrderError::InvalidAmount(config.purchase_min, config.purchase_max),
        );
    }
    let a = match auth.authenticate(claims, now) {
        Ok(a) => a,
        Err(e) => return Err(PaypalCreateCoinOrderError::Auth(e)),
    };
    match a.ensure_email_verified() {
        Ok(()) => {},
        Err(e) => return Err(PaypalCreateCoinOrderError::Auth(AuthError::Authorize(e))),
    }
    if !can_buy_coins {
        return Err(PaypalCreateCoinOrderError::IncompleteInvoiceInfo);
    }
    Ok(a.user_id)
}

/// Records the order that PayPal created (or reports its refusal), with the
/// next invoice number, and returns the order id.
pub fn record_coin_order(
    orders: &mut PaypalOrders,
    user_id: UserId,
    coins: u64,
    now: u64,
    created: Result<String, PaypalCreateOrderError>,
) -> (r: Result<String, PaypalCreateCoinOrderError>)
    requires
        old(orders).wf(),
    ensures
        final(orders).wf(),
        r is Err ==> *final(orders) == *old(orders),
        match created {
            Err(_) => r == Err::<String, PaypalCreateCoinOrderError>(
                PaypalCreateCoinOrderError::CreateOrderFailure,
            ),
            Ok(id) => {
                let fits = !exists|i: int| order_at(old(orders).orders@, i, id@);
                let room = max_invoice(old(orders).orders@) < u64::MAX;
                &&& r is Ok <==> fits && room
                &&& r is Err ==> r == Err::<String, PaypalCreateCoinOrderError>(
                    PaypalCreateCoinOrderError::Internal,
                )
                &&& r matches Ok(rid) ==> rid == id && final(orders).orders@ == old(
                    orders,
                ).orders@.push(
                    PaypalCoinOrder {
                        id,
                        user_id,
                        created_at: now,
                        captured_at: None,
                        coins,
                        invoice_number: (max_invoice(old(orders).orders@) + 1) as u64,
                    },
                )
            },
        },
{
    let id = match created {
        Ok(id) => id,
        Err(_) => return Err(PaypalCreateCoinOrderError::CreateOrderFailure),
    };
    if orders.find(&id).is_some() {
        return Err(PaypalCreateCoinOrderError::Internal);
    }
    let invoice_number = match orders.next_invoice_number() {
        Some(n) => n,
        None => return Err(PaypalCreateCoinOrderError::Internal),
    };
    let ghost before = orders.orders@;
    let order = PaypalCoinOrder {
        id: id.clone(),
        user_id,
        created_at: now,
        captured_at: None,
        coins,
        invoice_number,
    };
    orders.orders.push(order);
    proof {
        assert forall|j: int| 0 <= j < before.len() implies before[j].id@ != id@ by {
            if before[j].id@ == id@ {
                assert(order_at(before, j, id@));
            }
        }
    }
    Ok(id)
}

/// Checks a request to complete the purchase of order `order_id` before PayPal
/// is asked to capture it: the caller, a verified email address, an open
/// order of the caller, and complete invoice info. Returns the order's position.
pub fn check_capture_coin_order(
    orders: &PaypalOrders,
    auth: &SessionFeatureServiceImpl,
    claims: Option<AccessTokenClaims>,
    now: u64,
    order_id: &String,
    can_buy_coins: bool,
) -> (r: Result<usize, PaypalCaptureCoinOrderError>)
    requires
        orders.wf(),
    ensures
        match auth.authenticated(claims, now) {
            Err(e) => r == Err::<usize, PaypalCaptureCoinOrderError>(
                PaypalCaptureCoinOrderError::Auth(e),
            ),
            Ok(a) => if !a.email_verified {
                r == Err::<usize, PaypalCaptureCoinOrderError>(
                    PaypalCaptureCoinOrderError::Auth(
                        AuthError::Authorize(AuthorizeError::EmailVerified),
                    ),
                )
            } else {
                let open = exists|i: int|
                    order_at(orders.orders@, i, order_id@) && orders.orders@[i].user_id == a.user_id
                        && orders.orders@[i].captured_at is None;
                if !open {
                    r == Err::<usize, PaypalCaptureCoinOrderError>(
                        PaypalCaptureCoinOrderError::NotFound,
                    )
                } else if !can_buy_coins {
                    r == Err::<usize, PaypalCaptureCoinOrderError>(
                        PaypalCaptureCoinOrderError::IncompleteInvoiceInfo,
                    )
                } else {
                    r matches Ok(i) && order_at(orders.orders@, i as int, order_id@)
                        && orders.orders@[i as int].user_id == a.user_id
                        && orders.orders@[i as int].captured_at is None
                }
            },
        },
{
    let a = match auth.authenticate(claims, now) {
        Ok(a) => a,
        Err(e) => return Err(PaypalCaptureCoinOrderError::Auth(e)),
    };
    match a.ensure_email_verified() {
        Ok(()) => {},
        Err(e) => return Err(PaypalCaptureCoinOrderError::Auth(AuthError::Authorize(e))),
    }
    let i = match orders.find(order_id) {
        Some(i) => i,
        None => return Err(PaypalCaptureCoinOrderError::NotFound),
    };
    proof {
        assert forall|j: int| order_at(orders.orders@, j, order_id@) implies j == i by {}
    }
    if orders.orders[i].user_id != a.user_id || orders.orders[i].captured_at.is_some() {
        return Err(PaypalCaptureCoinOrderError::NotFound);
    }
    if !can_buy_coins {
        return Err(PaypalCaptureCoinOrderError::IncompleteInvoiceInfo);
    }
    Ok(i)
}

/// Completes the purchase of the order at position `i` once PayPal captured
/// the payment: marks it captured at `now` and credits its coins.
pub fn record_capture(
    orders: &mut PaypalOrders,
    coins: &mut CoinServiceImpl,
    i: usize,
    now: u64,
    captured: Result<(), PaypalCaptureOrderError>,
) -> (r: Result<Balance, PaypalCaptureCoinOrderError>)
    requires
        old(orders).wf(),
        old(coins).wf(),
        i < old(orders).orders@.len(),
    ensures
        final(orders).wf(),
        final(coins).wf(),
        r is Err ==> *final(orders) == *old(orders) && *final(coins) == *old(coins),
        ({
            let o = old(orders).orders@[i as int];
            match captured {
                Err(_) => r == Err::<Balance, PaypalCaptureCoinOrderError>(
                    PaypalCaptureCoinOrderError::CaptureOrderFailure,
                ),
                Ok(()) => match (if o.coins <= crate::coin::MAX_COINS {
                    added(old(coins).balance_of(o.user_id), o.coins as i64, false)
                } else {
                    Err(CoinRepoAddCoinsError::Overflow)
                }) {
                    Ok(b) => {
                        &&& r == Ok::<Balance, PaypalCaptureCoinOrderError>(b)
                        &&& final(coins).balance_of(o.user_id) == b
                        &&& final(orders).orders@ == old(orders).orders@.update(
                            i as int,
                            PaypalCoinOrder { captured_at: Some(now), ..o },
                        )
                    },
                    Err(_) => r == Err::<Balance, PaypalCaptureCoinOrderError>(
                        PaypalCaptureCoinOrderError::Internal,
                    ),
                },
            }
        }),
{
    match captured {
        Ok(()) => {},
        Err(_) => return Err(PaypalCaptureCoinOrderError::CaptureOrderFailure),
    }
    let order = orders.orders[i].clone();
    if order.coins > crate::coin::MAX_COINS {
        return Err(PaypalCaptureCoinOrderError::Internal);
    }
    let balance = match coins.add_coins(order.user_id, order.coins as i64, false) {
        Ok(b) => b,
        Err(_) => return Err(PaypalCaptureCoinOrderError::Internal),
    };
    let ghost before = orders.orders@;
    let captured_order = PaypalCoinOrder {
        id: order.id,
        user_id: order.user_id,
        created_at: order.created_at,
        captured_at: Some(now),
        coins: order.coins,
        invoice_number: order.invoice_number,
    };
    orders.orders.set(i, captured_order);
    proof {
        assert forall|a: int, b: int|
            0 <= a < orders.orders@.len() && 0 <= b < orders.orders@.len() && a != b implies orders.orders@[a].id@
            != orders.orders@[b].id@ by {
            assert(orders.orders@[a].id@ == before[a].id@);
            assert(orders.orders@[b].id@ == before[b].id@);
        }
    }
    Ok(balance)
}

} // verus!
