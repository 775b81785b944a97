use vstd::prelude::*;

use crate::access_token::AccessTokenClaims;
use crate::models::{AuthError, AuthorizeError, UserId, UserIdOrSelf};
use crate::session_feature::{user_exists, SessionFeatureServiceImpl};

verus! {

/// A user's Morphcoins: those owned, and those withheld until the user's
/// invoice info is complete.
#[derive(Debug, Clone, Copy, PartialEq, Eq, Structural)]
pub struct Balance {
    pub coins: u64,
    pub withheld_coins: u64,
}

impl Default for Balance {
    fn default() -> (r: Self)
        ensures
            r == (Balance { coins: 0, withheld_coins: 0 }),
    {
        Balance { coins: 0, withheld_coins: 0 }
    }
}

/// The balance as the REST API shows it.
#[derive(Debug, Clone, Copy, PartialEq, Eq, Structural)]
pub struct ApiBalance {
    pub coins: u64,
    pub withheld_coins: u64,
}

impl From<Balance> for ApiBalance {
    fn from(value: Balance) -> (r: Self) {
        ApiBalance { coins: value.coins, withheld_coins: value.withheld_coins }
    }
}

impl vstd::std_specs::convert::FromSpecImpl<Balance> for ApiBalance {
    open spec fn obeys_from_spec() -> bool {
        true
    }

    open spec fn from_spec(v: Balance) -> Self {
        ApiBalance { coins: v.coins, withheld_coins: v.withheld_coins }
    }
}

#[derive(Debug, Clone, Copy, PartialEq, Eq, Structural)]
pub enum CoinRepoAddCoinsError {
    /// A count would drop below zero.
    NotEnoughCoins,
    /// A count would exceed the largest value the store holds.
    Overflow,
}

/// The coins owned and withheld by one user.
#[derive(Debug, Clone, Copy)]
pub struct UserBalance {
    pub user_id: UserId,
    pub balance: Balance,
}

/// Largest count of coins the store holds (that of a signed 64-bit column).
pub const MAX_COINS: u64 = 9223372036854775807;

/// The balance after adding `coins` to the owned or the withheld count.
pub open spec fn added(b: Balance, coins: i64, withhold: bool) -> Result<Balance, CoinRepoAddCoinsError> {
    let (dc, dw) = if withhold {
        (0int, coins as int)
    } else {
        (coins as int, 0int)
    };
    if b.coins + dc < 0 || b.withheld_coins + dw < 0 {
        Err(CoinRepoAddCoinsError::NotEnoughCoins)
    } else if b.coins + dc > MAX_COINS || b.withheld_coins + dw > MAX_COINS {
        Err(CoinRepoAddCoinsError::Overflow)
    } else {
        Ok(Balance { coins: (b.coins + dc) as u64, withheld_coins: (b.withheld_coins + dw) as u64 })
    }
}

pub open spec fn balance_at(s: Seq<UserBalance>, i: int, user_id: UserId) -> bool {
    0 <= i < s.len() && s[i].user_id == user_id
}

/// The balance of a user in `s`: zero until coins were first added.
pub open spec fn balance_in(s: Seq<UserBalance>, user_id: UserId) -> Balance {
    if exists|i: int| balance_at(s, i, user_id) {
        s[choose|i: int| balance_at(s, i, user_id)].balance
    } else {
        Balance { coins: 0, withheld_coins: 0 }
    }
}

/// Keeps the Morphcoin balances of all users.
#[derive(Debug, Clone)]
pub struct CoinServiceImpl {
    pub balances: Vec<UserBalance>,
}

#[derive(Debug, Clone, Copy, PartialEq, Eq, Structural)]
pub enum CoinAddCoinsError {
    Auth(AuthError),
    UserNotFound,
    NotEnoughCoins,
    /// The new balance would exceed the largest storable count.
    Overflow,
}

#[derive(Debug, Clone, Copy, PartialEq, Eq, Structural)]
pub enum CoinGetBalanceError {
    Auth(AuthError),
    UserNotFound,
}

impl CoinServiceImpl {
    pub open spec fn wf(&self) -> bool {
        forall|i: int, j: int|
            0 <= i < self.balances@.len() && 0 <= j < self.balances@.len() && i != j
                ==> self.balances@[i].user_id != self.balances@[j].user_id
    }

    pub open spec fn balance_of(&self, user_id: UserId) -> Balance {
        balance_in(self.balances@, user_id)
    }

    pub fn new() -> (r: Self)
        ensures
            r.wf(),
            forall|u: UserId| r.balance_of(u) == (Balance { coins: 0, withheld_coins: 0 }),
    {
        CoinServiceImpl { balances: Vec::new() }
    }

    fn find(&self, user_id: UserId) -> (r: Option<usize>)
        requires
            self.wf(),
        ensures
            r matches Some(i) ==> balance_at(self.balances@, i as int, user_id)
                && self.balance_of(user_id) == self.balances@[i as int].balance,
            r is None ==> !exists|i: int| balance_at(self.balances@, i, user_id),
    {
        let mut i: usize = 0;
        while i < self.balances.len()
            invariant
                self.wf(),
                i <= self.balances@.len(),
                forall|j: int| 0 <= j < i ==> self.balances@[j].user_id != user_id,
            decreases self.balances@.len() - i,
        {
            if self.balances[i].user_id == user_id {
                proof {
                    assert(balance_at(self.balances@, i as int, user_id));
                    let k = choose|k: int| balance_at(self.balances@, k, user_id);
                    assert(k == i);
                }
                return Some(i);
            }
            i = i + 1;
        }
        None
    }

    /// The balance of a user.
    pub fn get_balance(&self, user_id: UserId) -> (r: Balance)
        requires
            self.wf(),
        ensures
            r == self.balance_of(user_id),
    {
        match self.find(user_id) {
            Some(i) => self.balances[i].balance,
            None => Balance { coins: 0, withheld_coins: 0 },
        }
    }

    /// Adds `coins` (negative to take some away) to the owned count of a
    /// user, or to the withheld count with `withhold`.
    pub fn add_coins(&mut self, user_id: UserId, coins: i64, withhold: bool) -> (r: Result<
        Balance,
        CoinRepoAddCoinsError,
    >)
        requires
            old(self).wf(),
        ensures
            final(self).wf(),
            r == added(old(self).balance_of(user_id), coins, withhold),
            r matches Ok(b) ==> final(self).balance_of(user_id) == b,
            r is Err ==> *final(self) == *old(self),
            forall|u: UserId| u != user_id ==> final(self).balance_of(u) == old(self).balance_of(u),
    {
        let current = self.get_balance(user_id);
        let (dc, dw): (i64, i64) = if withhold {
            (0, coins)
        } else {
            (coins, 0)
        };
        let c = current.coins as i128 + dc as i128;
        let w = current.withheld_coins as i128 + dw as i128;
        if c < 0 || w < 0 {
            return Err(CoinRepoAddCoinsError::NotEnoughCoins);
        }
        if c > MAX_COINS as i128 || w > MAX_COINS as i128 {
            return Err(CoinRepoAddCoinsError::Overflow);
        }
        let balance = Balance { coins: c as u64, withheld_coins: w as u64 };
        let ghost before = self.balances@;
        match self.find(user_id) {
            Some(i) => {
                self.balances.set(i, UserBalance { user_id, balance });
                proof {
                    assert forall|u: UserId| u != user_id implies self.balance_of(u) == balance_in(
                        before,
                        u,
                    ) by {
                        if exists|k: int| balance_at(before, k, u) {
                            let k = choose|k: int| balance_at(before, k, u);
                            assert(balance_at(self.balances@, k, u));
                            let k2 = choose|k2: int| balance_at(self.balances@, k2, u);
                            assert(k2 == k);
                        } else {
                            assert forall|k: int| !balance_at(self.balances@, k, u) by {
                                if balance_at(self.balances@, k, u) {
                                    assert(balance_at(before, k, u));
                                }
                            }
                        }
                    }
                    assert(balance_at(self.balances@, i as int, user_id));
                    let k = choose|k: int| balance_at(self.balances@, k, user_id);
                    assert(k == i);
                }
            },
            None => {
                self.balances.push(UserBalance { user_id, balance });
                proof {
                    let n = before.len() as int;
                    assert forall|j: int| 0 <= j < n implies before[j].user_id != user_id by {
                        if before[j].user_id == user_id {
                            assert(balance_at(before, j, user_id));
                        }
                    }
                    assert forall|u: UserId| u != user_id implies self.balance_of(u) == balance_in(
                        before,
                        u,
                    ) by {
                        if exists|k: int| balance_at(before, k, u) {
                            let k = choose|k: int| balance_at(before, k, u);
                            assert(balance_at(self.balances@, k, u));
                            let k2 = choose|k2: int| balance_at(self.balances@, k2, u);
                            assert(k2 == k);
                        } else {
                            assert forall|k: int| !balance_at(self.balances@, k, u) by {
                                if balance_at(self.balances@, k, u) {
                                    assert(balance_at(before, k, u));
                                }
                            }
                        }
                    }
                    assert(balance_at(self.balances@, n, user_id));
                    let k = choose|k: int| balance_at(self.balances@, k, user_id);
                    assert(k == n);
                }
            },
        }
        Ok(balance)
    }
}

/// The balance of a user: one's own, or anyone's for an administrator.
pub fn get_balance(
    auth: &SessionFeatureServiceImpl,
    coins: &CoinServiceImpl,
    claims: Option<AccessTokenClaims>,
    now: u64,
    user_id: UserIdOrSelf,
) -> (r: Result<Balance, CoinGetBalanceError>)
    requires
        coins.wf(),
    ensures
        match auth.authenticated(claims, now) {
            Err(e) => r == Err::<Balance, CoinGetBalanceError>(CoinGetBalanceError::Auth(e)),
            Ok(a) => {
                let target = user_id.resolved(a.user_id);
                if !(a.user_id == target || a.admin) {
                    r == Err::<Balance, CoinGetBalanceError>(
                        CoinGetBalanceError::Auth(AuthError::Authorize(AuthorizeError::Admin)),
                    )
                } else if !user_exists(auth.users@, target) {
                    r == Err::<Balance, CoinGetBalanceError>(CoinGetBalanceError::UserNotFound)
                } else {
                    r == Ok::<Balance, CoinGetBalanceError>(coins.balance_of(target))
                }
            },
        },
{
    let a = match auth.authenticate(claims, now) {
        Ok(a) => a,
        Err(e) => return Err(CoinGetBalanceError::Auth(e)),
    };
    let target = user_id.unwrap_or(a.user_id);
    match a.ensure_self_or_admin(target) {
        Ok(()) => {},
        Err(e) => return Err(CoinGetBalanceError::Auth(AuthError::Authorize(e))),
    }
    if !auth.has_user(target) {
        return Err(CoinGetBalanceError::UserNotFound);
    }
    Ok(coins.get_balance(target))
}

/// Adds Morphcoins to a user's owned count, for an administrator.
pub fn add_coins(
    auth: &SessionFeatureServiceImpl,
    coins: &mut CoinServiceImpl,
    claims: Option<AccessTokenClaims>,
    now: u64,
    user_id: UserIdOrSelf,
    amount: i64,
) -> (r: Result<Balance, CoinAddCoinsError>)
    requires
        old(coins).wf(),
    ensures
        final(coins).wf(),
        r is Err ==> *final(coins) == *old(coins),
        match auth.authenticated(claims, now) {
            Err(e) => r == Err::<Balance, CoinAddCoinsError>(CoinAddCoinsError::Auth(e)),
            Ok(a) => {
                let target = user_id.resolved(a.user_id);
                if !a.admin {
                    r == Err::<Balance, CoinAddCoinsError>(
                        CoinAddCoinsError::Auth(AuthError::Authorize(AuthorizeError::Admin)),
                    )
                } else if !user_exists(auth.users@, target) {
                    r == Err::<Balance, CoinAddCoinsError>(CoinAddCoinsError::UserNotFound)
                } else {
                    match added(old(coins).balance_of(target), amount, false) {
                        Ok(b) => r == Ok::<Balance, CoinAddCoinsError>(b) && final(coins).balance_of(
                            target,
                        ) == b,
                        Err(CoinRepoAddCoinsError::NotEnoughCoins) => r == Err::<
                            Balance,
                            CoinAddCoinsError,
                        >(CoinAddCoinsError::NotEnoughCoins),
                        Err(CoinRepoAddCoinsError::Overflow) => r == Err::<
                            Balance,
                            CoinAddCoinsError,
                        >(CoinAddCoinsError::Overflow),
                    }
                }
            },
        },
{
    let a = match auth.authenticate(claims, now) {
        Ok(a) => a,
        Err(e) => return Err(CoinAddCoinsError::Auth(e)),
    };
    let target = user_id.unwrap_or(a.user_id);
    match a.ensure_admin() {
        Ok(()) => {},
        Err(e) => return Err(CoinAddCoinsError::Auth(AuthError::Authorize(e))),
    }
    if !auth.has_user(target) {
        return Err(CoinAddCoinsError::UserNotFound);
    }
    match coins.add_coins(target, amount, false) {
        Ok(b) => Ok(b),
        Err(CoinRepoAddCoinsError::NotEnoughCoins) => Err(CoinAddCoinsError::NotEnoughCoins),
        Err(CoinRepoAddCoinsError::Overflow) => Err(CoinAddCoinsError::Overflow),
    }
}

#[derive(Debug, Clone, Copy, PartialEq, Eq, Structural)]
pub enum InternalAddCoinsError {
    Auth(crate::internal::InternalAuthError),
    UserNotFound,
    NotEnoughCoins,
    Overflow,
}

/// Adds Morphcoins on behalf of another service (the shop). Coins credited
/// to a user who cannot receive them yet (incomplete invoice info) are
/// withheld; debits always come from the owned coins. The caller holds an
/// internal token for the `shop` audience.
pub fn internal_add_coins(
    auth: &SessionFeatureServiceImpl,
    coins: &mut CoinServiceImpl,
    audience: Option<&String>,
    user_id: UserId,
    amount: i64,
    can_receive_coins: bool,
) -> (r: Result<Balance, InternalAddCoinsError>)
    requires
        old(coins).wf(),
    ensures
        final(coins).wf(),
        r is Err ==> *final(coins) == *old(coins),
        !crate::internal::audience_ok(audience, "shop"@) ==> r == Err::<
            Balance,
            InternalAddCoinsError,
        >(InternalAddCoinsError::Auth(crate::internal::InternalAuthError::InvalidToken)),
        crate::internal::audience_ok(audience, "shop"@) && !user_exists(auth.users@, user_id) ==> r
            == Err::<Balance, InternalAddCoinsError>(InternalAddCoinsError::UserNotFound),
        crate::internal::audience_ok(audience, "shop"@) && user_exists(auth.users@, user_id) ==> match added(
            old(coins).balance_of(user_id),
            amount,
            amount >= 0 && !can_receive_coins,
        ) {
            Ok(b) => r == Ok::<Balance, InternalAddCoinsError>(b) && final(coins).balance_of(user_id)
                == b,
            Err(CoinRepoAddCoinsError::NotEnoughCoins) => r == Err::<Balance, InternalAddCoinsError>(
                InternalAddCoinsError::NotEnoughCoins,
            ),
            Err(CoinRepoAddCoinsError::Overflow) => r == Err::<Balance, InternalAddCoinsError>(
                InternalAddCoinsError::Overflow,
            ),
        },
{
    proof {
        reveal_strlit("shop");
    }
    match crate::internal::authenticate_internal(audience, "shop") {
        Ok(()) => {},
        Err(e) => return Err(InternalAddCoinsError::Auth(e)),
    }
    if !auth.has_user(user_id) {
        return Err(InternalAddCoinsError::UserNotFound);
    }
    let withhold = amount >= 0 && !can_receive_coins;
    match coins.add_coins(user_id, amount, withhold) {
        Ok(b) => Ok(b),
        Err(CoinRepoAddCoinsError::NotEnoughCoins) => Err(InternalAddCoinsError::NotEnoughCoins),
        Err(CoinRepoAddCoinsError::Overflow) => Err(InternalAddCoinsError::Overflow),
    }
}

} // verus!
