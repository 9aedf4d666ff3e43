//! Loyalty points: merchants award points on payments and users redeem them
//! for tokens from a funded reserve.
//!
//! Points are earned at a configurable rate (points per 1 000 token units),
//! expire after a configurable number of ledgers (0 = never), and are burnt on
//! redemption, which pays `points * redeem_rate` tokens. Only the admin awards
//! points and changes the configuration.
use crate::contract_env::{require_auth, Address, Env, Failure, Transfer, Trap};
use crate::table::{entries_map, keys_distinct, Table};
use vstd::prelude::*;

verus! {

/// A user's points and the ledger at which they expire (0 = never).
#[derive(Debug, Clone, Copy, PartialEq, Eq, Structural)]
pub struct PointBalance {
    pub points: i128,
    pub expires_at: u32,
}

#[derive(Debug, Clone, Copy, PartialEq, Eq, Structural)]
pub enum Error {
    AlreadyInitialized,
    NotInitialized,
    Unauthorized,
    ZeroAmount,
    InsufficientPoints,
    PointsExpired,
    InvalidRate,
}

impl Error {
    /// The numeric code the contract reports for this error.
    pub fn code(&self) -> (c: u32)
        ensures
            1 <= c <= 7,
            *self == Error::AlreadyInitialized <==> c == 1,
            *self == Error::NotInitialized <==> c == 2,
            *self == Error::Unauthorized <==> c == 3,
            *self == Error::ZeroAmount <==> c == 4,
            *self == Error::InsufficientPoints <==> c == 5,
            *self == Error::PointsExpired <==> c == 6,
            *self == Error::InvalidRate <==> c == 7,
    {
        match self {
            Error::AlreadyInitialized => 1,
            Error::NotInitialized => 2,
            Error::Unauthorized => 3,
            Error::ZeroAmount => 4,
            Error::InsufficientPoints => 5,
            Error::PointsExpired => 6,
            Error::InvalidRate => 7,
        }
    }
}

/// Events the contract publishes, under the topics ("loyalty", ...).
#[derive(Debug, Clone)]
pub enum LoyaltyEvent {
    Earned { user: Address, points: i128 },
    Redeemed { user: Address, points: i128, token_amount: i128 },
}

impl LoyaltyEvent {
    /// The event's two topic symbols.
    pub fn topics(&self) -> (t: (&'static str, &'static str))
        ensures
            t.0@ == "loyalty"@,
            self is Earned ==> t.1@ == "earned"@,
            self is Redeemed ==> t.1@ == "redeemed"@,
    {
        match self {
            LoyaltyEvent::Earned { .. } => ("loyalty", "earned"),
            LoyaltyEvent::Redeemed { .. } => ("loyalty", "redeemed"),
        }
    }
}

/// What `initialize` stores.
#[derive(Debug, Clone)]
pub struct LoyaltyConfig {
    pub admin: Address,
    pub token: Address,
    /// Points awarded per 1 000 token units paid.
    pub earn_rate: i128,
    /// Token units paid per point redeemed.
    pub redeem_rate: i128,
    /// Ledgers until points expire; 0 = never.
    pub ttl_ledgers: u32,
}

/// The contract's instance storage.
#[derive(Debug, Clone)]
pub struct LoyaltyPoints {
    config: Option<LoyaltyConfig>,
    balances: Table<Address, PointBalance>,
}

pub type LoyaltyResult<T> = Result<T, Failure<Error>>;

/// `payment * rate / 1 000`, the points a payment earns.
pub open spec fn earned_points(payment: int, rate: int) -> int {
    payment * rate / 1000
}

/// A payment earns `payment * rate / 1 000` points rounded down: the points
/// times 1 000 are within 1 000 of the product, never above it.
pub proof fn lemma_earned_points_rounding(payment: int, rate: int)
    requires
        payment * rate >= 0,
    ensures
        0 <= earned_points(payment, rate) * 1000 <= payment * rate < (earned_points(payment, rate) + 1)
            * 1000,
{
    let x = payment * rate;
    let q = x / 1000;
    assert(0 <= q * 1000 <= x < (q + 1) * 1000) by (nonlinear_arith)
        requires
            x >= 0,
            q == x / 1000,
    ;
}

/// The expiry ledger of points earned at `seq`: `seq + ttl`, or 0 (never) when `ttl` is 0.
pub open spec fn expiry_ledger(seq: int, ttl: int) -> int {
    if ttl == 0 {
        0
    } else {
        seq + ttl
    }
}

/// Points that never expire or whose expiry ledger has not passed.
pub open spec fn is_live(b: PointBalance, seq: int) -> bool {
    b.expires_at == 0 || seq <= b.expires_at
}

/// The balance after earning `pts` at ledger `seq` with new expiry `exp`: live
/// points are added to (keeping their expiry when `exp` is 0), expired ones reset.
pub open spec fn accrued(current: PointBalance, seq: int, pts: int, exp: int) -> (int, int) {
    if is_live(current, seq) {
        (current.points + pts, if exp == 0 {
            current.expires_at as int
        } else {
            exp
        })
    } else {
        (pts, exp)
    }
}

pub open spec fn fits_i128(x: int) -> bool {
    i128::MIN <= x <= i128::MAX
}

/// Points just earned can be redeemed at once: after `earn` at ledger `seq`
/// the user's balance (whatever it held before, expired or not) holds at least
/// the points earned and is live at `seq`.
pub proof fn lemma_earned_points_redeemable(current: Option<PointBalance>, seq: u32, pts: int, ttl: u32)
    requires
        current matches Some(b) ==> b.points >= 0,
        pts > 0,
        seq + ttl <= u32::MAX,
    ensures
        ({
            let exp = expiry_ledger(seq as int, ttl as int);
            let cur = match current {
                Some(b) => b,
                None => PointBalance { points: 0, expires_at: exp as u32 },
            };
            let next = accrued(cur, seq as int, pts, exp);
            &&& next.0 >= pts
            &&& is_live(PointBalance { points: 0, expires_at: next.1 as u32 }, seq as int)
        }),
{
}

impl LoyaltyPoints {
    pub closed spec fn config_spec(&self) -> Option<LoyaltyConfig> {
        self.config
    }

    /// Stored balances by account.
    pub closed spec fn balances_spec(&self) -> Map<Seq<char>, PointBalance> {
        self.balances@
    }

    pub closed spec fn table_ok(&self) -> bool {
        self.balances.wf()
    }

    /// Rates are positive once set, and no stored balance is negative.
    pub open spec fn wf(&self) -> bool {
        &&& self.table_ok()
        &&& (self.config_spec() matches Some(c) ==> c.earn_rate > 0 && c.redeem_rate > 0)
        &&& forall|k: Seq<char>| #[trigger]
            self.balances_spec().dom().contains(k) ==> self.balances_spec()[k].points >= 0
    }

    /// The balance `balance_of` reports: the stored one, or zero points that never expire.
    pub open spec fn balance_spec(&self, who: Seq<char>) -> PointBalance {
        if self.balances_spec().dom().contains(who) {
            self.balances_spec()[who]
        } else {
            PointBalance { points: 0, expires_at: 0 }
        }
    }

    /// A contract that has not been initialised.
    pub fn new() -> (s: Self)
        ensures
            s.wf(),
            s.config_spec() is None,
            s.balances_spec() == Map::<Seq<char>, PointBalance>::empty(),
    {
        LoyaltyPoints { config: None, balances: Table::new() }
    }

    /// Rebuilds the contract from its stored parts; `None` when they break the
    /// contract's invariant (an account listed twice, a negative balance, a
    /// rate that is not positive).
    pub fn from_parts(config: Option<LoyaltyConfig>, balances: Vec<(Address, PointBalance)>) -> (r: Option<Self>)
        ensures
            r is Some <==> keys_distinct(balances@) && (forall|i: int|
                0 <= i < balances@.len() ==> #[trigger] balances@[i].1.points >= 0) && (config matches Some(c)
                ==> c.earn_rate > 0 && c.redeem_rate > 0),
            r matches Some(s) ==> s.wf() && s.config_spec() == config && s.balances_spec() == entries_map(
                balances@,
            ),
    {
        match &config {
            Some(c) => {
                if c.earn_rate <= 0 || c.redeem_rate <= 0 {
                    return None;
                }
            },
            None => {},
        }
        let n = balances.len();
        let mut i: usize = 0;
        while i < n
            invariant
                n == balances@.len(),
                0 <= i <= n,
                forall|j: int| 0 <= j < i ==> #[trigger] balances@[j].1.points >= 0,
            decreases n - i,
        {
            if balances[i].1.points < 0 {
                return None;
            }
            i = i + 1;
        }
        let ghost entries = balances@;
        match Table::from_entries(balances) {
            None => None,
            Some(table) => {
                let s = LoyaltyPoints { config, balances: table };
                proof {
                    s.balances.lemma_entries();
                    assert forall|k: Seq<char>| #[trigger] s.balances_spec().dom().contains(k) implies s.balances_spec()[k].points >= 0 by {
                        let j = choose|j: int| 0 <= j < entries.len() && #[trigger] entries[j].0@ == k;
                        assert(s.balances_spec()[entries[j].0@] == entries[j].1);
                    }
                }
                Some(s)
            },
        }
    }

    /// The stored configuration.
    pub fn stored_config(&self) -> (c: &Option<LoyaltyConfig>)
        ensures
            *c == self.config_spec(),
    {
        &self.config
    }

    /// The stored balances, one entry per account.
    pub fn stored_balances(&self) -> (b: &Vec<(Address, PointBalance)>)
        requires
            self.wf(),
        ensures
            keys_distinct(b@),
            entries_map(b@) == self.balances_spec(),
    {
        proof {
            self.balances.lemma_entries();
        }
        self.balances.as_entries()
    }

    /// * `earn_rate` – points awarded per 1 000 token units (e.g. 10 = 1 %)
    /// * `redeem_rate` – token units returned per point redeemed
    /// * `ttl_ledgers` – ledgers until points expire; 0 = never
    pub fn initialize(
        &mut self,
        env: &mut Env<LoyaltyEvent>,
        admin: Address,
        token: Address,
        earn_rate: i128,
        redeem_rate: i128,
        ttl_ledgers: u32,
    ) -> (r: LoyaltyResult<()>)
        requires
            old(self).wf(),
        ensures
            final(self).wf(),
            *final(env) == *old(env),
            old(self).config_spec() is Some ==> r == Err::<(), Failure<Error>>(
                Failure::Error(Error::AlreadyInitialized),
            ),
            old(self).config_spec() is None && (earn_rate <= 0 || redeem_rate <= 0) ==> r == Err::<
                (),
                Failure<Error>,
            >(Failure::Error(Error::InvalidRate)),
            old(self).config_spec() is None && earn_rate > 0 && redeem_rate > 0 ==> {
                &&& !old(env).auth.authorizes(admin@) ==> r == Err::<(), Failure<Error>>(
                    Failure::Trap(Trap::NotAuthorized(admin)),
                )
                &&& old(env).auth.authorizes(admin@) ==> r is Ok
            },
            r is Ok ==> {
                &&& final(self).config_spec() == Some(
                    LoyaltyConfig { admin, token, earn_rate, redeem_rate, ttl_ledgers },
                )
                &&& final(self).balances_spec() == Map::<Seq<char>, PointBalance>::empty()
            },
            r is Err ==> *final(self) == *old(self),
    {
        if self.config.is_some() {
            return Err(Failure::Error(Error::AlreadyInitialized));
        }
        if earn_rate <= 0 || redeem_rate <= 0 {
            return Err(Failure::Error(Error::InvalidRate));
        }
        match require_auth(env, &admin) {
            Ok(()) => {},
            Err(e) => return Err(e),
        }
        self.config = Some(LoyaltyConfig { admin, token, earn_rate, redeem_rate, ttl_ledgers });
        self.balances = Table::new();
        Ok(())
    }

    /// Award points to `user` for a payment of `payment_amount`:
    /// `points = payment_amount * earn_rate / 1_000`.
    pub fn earn(&mut self, env: &mut Env<LoyaltyEvent>, user: Address, payment_amount: i128) -> (r:
        LoyaltyResult<i128>)
        requires
            old(self).wf(),
        ensures
            final(self).wf(),
            final(env).same_host(*old(env)),
            final(env).transfers == old(env).transfers,
            old(self).config_spec() is None ==> r == Err::<i128, Failure<Error>>(
                Failure::Error(Error::NotInitialized),
            ),
            old(self).config_spec() matches Some(c) ==> {
                let seq = old(env).ledger_sequence as int;
                let pts = earned_points(payment_amount as int, c.earn_rate as int);
                let exp = expiry_ledger(seq, c.ttl_ledgers as int);
                let cur = if old(self).balances_spec().dom().contains(user@) {
                    old(self).balances_spec()[user@]
                } else {
                    PointBalance { points: 0, expires_at: #[verifier::truncate] (exp as u32) }
                };
                let next = accrued(cur, seq, pts, exp);
                &&& !old(env).auth.authorizes(c.admin@) ==> r == Err::<i128, Failure<Error>>(
                    Failure::Trap(Trap::NotAuthorized(c.admin)),
                )
                &&& old(env).auth.authorizes(c.admin@) && payment_amount <= 0 ==> r == Err::<
                    i128,
                    Failure<Error>,
                >(Failure::Error(Error::ZeroAmount))
                &&& old(env).auth.authorizes(c.admin@) && payment_amount > 0 ==> {
                    &&& !fits_i128(payment_amount * c.earn_rate) ==> r == Err::<i128, Failure<Error>>(
                        Failure::Trap(Trap::Overflow),
                    )
                    &&& fits_i128(payment_amount * c.earn_rate) && pts == 0 ==> r == Ok::<
                        i128,
                        Failure<Error>,
                    >(0) && *final(self) == *old(self) && final(env).events == old(env).events
                    &&& fits_i128(payment_amount * c.earn_rate) && pts != 0 && (exp > u32::MAX
                        || !fits_i128(next.0)) ==> r == Err::<i128, Failure<Error>>(
                        Failure::Trap(Trap::Overflow),
                    )
                    &&& fits_i128(payment_amount * c.earn_rate) && pts != 0 && exp <= u32::MAX
                        && fits_i128(next.0) ==> {
                        &&& r == Ok::<i128, Failure<Error>>(pts as i128)
                        &&& final(self).config_spec() == old(self).config_spec()
                        &&& final(self).balances_spec() == old(self).balances_spec().insert(
                            user@,
                            PointBalance { points: next.0 as i128, expires_at: next.1 as u32 },
                        )
                        &&& final(env).events@ == old(env).events@.push(
                            LoyaltyEvent::Earned { user, points: pts as i128 },
                        )
                    }
                }
            },
            r is Err ==> *final(self) == *old(self) && final(env).events == old(env).events,
    {
        let (rate, ttl) = match &self.config {
            None => return Err(Failure::Error(Error::NotInitialized)),
            Some(c) => {
                match require_auth(env, &c.admin) {
                    Ok(()) => {},
                    Err(e) => return Err(e),
                }
                (c.earn_rate, c.ttl_ledgers)
            },
        };
        if payment_amount <= 0 {
            return Err(Failure::Error(Error::ZeroAmount));
        }
        let product = match payment_amount.checked_mul(rate) {
            Some(p) => p,
            None => return Err(Failure::Trap(Trap::Overflow)),
        };
        let points = product / 1000;
        if points == 0 {
            return Ok(0);
        }
        let seq = env.ledger_sequence;
        let expires_at: u32 = if ttl == 0 {
            0
        } else {
            match seq.checked_add(ttl) {
                Some(e) => e,
                None => return Err(Failure::Trap(Trap::Overflow)),
            }
        };
        let current = match self.balances.get(&user) {
            Some(b) => *b,
            None => PointBalance { points: 0, expires_at },
        };
        let new_balance = if current.expires_at == 0 || seq <= current.expires_at {
            let total = match current.points.checked_add(points) {
                Some(t) => t,
                None => return Err(Failure::Trap(Trap::Overflow)),
            };
            PointBalance {
                points: total,
                expires_at: if expires_at == 0 {
                    current.expires_at
                } else {
                    expires_at
                },
            }
        } else {
            PointBalance { points, expires_at }
        };
        let who = user.duplicate();
        let ghost before = self.balances_spec();
        let ghost key = user@;
        assert(new_balance.points >= 0) by {
            if before.dom().contains(key) {
                assert(before[key].points >= 0);
            }
        }
        self.balances.set(user, new_balance);
        proof {
            assert forall|k: Seq<char>| #[trigger] self.balances_spec().dom().contains(k) implies self.balances_spec()[k].points >= 0 by {
                if k != key {
                    assert(before.dom().contains(k));
                }
            }
        }
        env.events.push(LoyaltyEvent::Earned { user: who, points });
        Ok(points)
    }

    /// Burn `points` of `user` and pay `points * redeem_rate` tokens from the
    /// contract's reserve to `user`.
    pub fn redeem(&mut self, env: &mut Env<LoyaltyEvent>, user: Address, points: i128) -> (r:
        LoyaltyResult<i128>)
        requires
            old(self).wf(),
        ensures
            final(self).wf(),
            final(env).same_host(*old(env)),
            !old(env).auth.authorizes(user@) ==> r == Err::<i128, Failure<Error>>(
                Failure::Trap(Trap::NotAuthorized(user)),
            ),
            old(env).auth.authorizes(user@) && points <= 0 ==> r == Err::<i128, Failure<Error>>(
                Failure::Error(Error::ZeroAmount),
            ),
            old(env).auth.authorizes(user@) && points > 0 && old(self).config_spec() is None ==> r
                == Err::<i128, Failure<Error>>(Failure::Error(Error::NotInitialized)),
            old(self).config_spec() matches Some(c) ==> (old(env).auth.authorizes(user@) && points > 0
                ==> {
                let bal = old(self).balance_spec(user@);
                let seq = old(env).ledger_sequence as int;
                &&& !is_live(bal, seq) ==> r == Err::<i128, Failure<Error>>(
                    Failure::Error(Error::PointsExpired),
                )
                &&& is_live(bal, seq) && bal.points < points ==> r == Err::<i128, Failure<Error>>(
                    Failure::Error(Error::InsufficientPoints),
                )
                &&& is_live(bal, seq) && bal.points >= points && !fits_i128(points * c.redeem_rate)
                    ==> r == Err::<i128, Failure<Error>>(Failure::Trap(Trap::Overflow))
                &&& is_live(bal, seq) && bal.points >= points && fits_i128(points * c.redeem_rate)
                    ==> {
                    &&& r == Ok::<i128, Failure<Error>>((points * c.redeem_rate) as i128)
                    &&& final(self).config_spec() == old(self).config_spec()
                    &&& final(self).balances_spec() == old(self).balances_spec().insert(
                        user@,
                        PointBalance { points: (bal.points - points) as i128, expires_at: bal.expires_at },
                    )
                    &&& final(env).transfers@ == old(env).transfers@.push(
                        Transfer {
                            from: old(env).contract,
                            to: user,
                            amount: (points * c.redeem_rate) as i128,
                        },
                    )
                    &&& final(env).events@ == old(env).events@.push(
                        LoyaltyEvent::Redeemed {
                            user,
                            points,
                            token_amount: (points * c.redeem_rate) as i128,
                        },
                    )
                }
            }),
            r is Err ==> *final(self) == *old(self) && *final(env) == *old(env),
    {
        match require_auth(env, &user) {
            Ok(()) => {},
            Err(e) => return Err(e),
        }
        if points <= 0 {
            return Err(Failure::Error(Error::ZeroAmount));
        }
        let rate = match &self.config {
            None => return Err(Failure::Error(Error::NotInitialized)),
            Some(c) => c.redeem_rate,
        };
        let bal = match self.balances.get(&user) {
            Some(b) => *b,
            None => PointBalance { points: 0, expires_at: 0 },
        };
        if bal.expires_at != 0 && env.ledger_sequence > bal.expires_at {
            return Err(Failure::Error(Error::PointsExpired));
        }
        if bal.points < points {
            return Err(Failure::Error(Error::InsufficientPoints));
        }
        let token_amount = match points.checked_mul(rate) {
            Some(t) => t,
            None => return Err(Failure::Trap(Trap::Overflow)),
        };
        let who = user.duplicate();
        let payee = user.duplicate();
        let ghost before = self.balances_spec();
        let ghost key = user@;
        self.balances.set(user, PointBalance { points: bal.points - points, expires_at: bal.expires_at });
        proof {
            assert forall|k: Seq<char>| #[trigger] self.balances_spec().dom().contains(k) implies self.balances_spec()[k].points >= 0 by {
                if k != key {
                    assert(before.dom().contains(k));
                }
            }
        }
        let from = env.contract.duplicate();
        env.transfers.push(Transfer { from, to: payee, amount: token_amount });
        env.events.push(LoyaltyEvent::Redeemed { user: who, points, token_amount });
        Ok(token_amount)
    }

    /// The admin moves `amount` tokens from its own account into the
    /// contract's redemption reserve; any other account is refused.
    pub fn fund_reserve(&mut self, env: &mut Env<LoyaltyEvent>, from: Address, amount: i128) -> (r:
        LoyaltyResult<()>)
        requires
            old(self).wf(),
        ensures
            *final(self) == *old(self),
            final(env).same_host(*old(env)),
            final(env).events == old(env).events,
            !old(env).auth.authorizes(from@) ==> r == Err::<(), Failure<Error>>(
                Failure::Trap(Trap::NotAuthorized(from)),
            ),
            old(env).auth.authorizes(from@) && amount <= 0 ==> r == Err::<(), Failure<Error>>(
                Failure::Error(Error::ZeroAmount),
            ),
            old(env).auth.authorizes(from@) && amount > 0 && old(self).config_spec() is None ==> r
                == Err::<(), Failure<Error>>(Failure::Error(Error::NotInitialized)),
            old(self).config_spec() matches Some(c) ==> (old(env).auth.authorizes(from@) && amount > 0
                ==> {
                &&& from@ != c.admin@ ==> r == Err::<(), Failure<Error>>(Failure::Error(Error::Unauthorized))
                &&& from@ == c.admin@ ==> r is Ok
            }),
            r is Ok ==> final(env).transfers@ == old(env).transfers@.push(
                Transfer { from, to: old(env).contract, amount },
            ),
            r is Err ==> final(env).transfers == old(env).transfers,
    {
        match require_auth(env, &from) {
            Ok(()) => {},
            Err(e) => return Err(e),
        }
        if amount <= 0 {
            return Err(Failure::Error(Error::ZeroAmount));
        }
        match &self.config {
            None => return Err(Failure::Error(Error::NotInitialized)),
            Some(c) => {
                if !from.same(&c.admin) {
                    return Err(Failure::Error(Error::Unauthorized));
                }
            },
        }
        let to = env.contract.duplicate();
        env.transfers.push(Transfer { from, to, amount });
        Ok(())
    }

    pub fn set_earn_rate(&mut self, env: &Env<LoyaltyEvent>, earn_rate: i128) -> (r: LoyaltyResult<
        (),
    >)
        requires
            old(self).wf(),
        ensures
            final(self).wf(),
            final(self).balances_spec() == old(self).balances_spec(),
            old(self).config_spec() is None ==> r == Err::<(), Failure<Error>>(
                Failure::Error(Error::NotInitialized),
            ),
            old(self).config_spec() is Some && earn_rate <= 0 ==> r == Err::<(), Failure<Error>>(
                Failure::Error(Error::InvalidRate),
            ),
            old(self).config_spec() matches Some(c) ==> (earn_rate > 0 ==> {
                &&& !env.auth.authorizes(c.admin@) ==> r == Err::<(), Failure<Error>>(
                    Failure::Trap(Trap::NotAuthorized(c.admin)),
                )
                &&& env.auth.authorizes(c.admin@) ==> r is Ok && final(self).config_spec() == Some(
                    LoyaltyConfig { earn_rate, ..c },
                )
            }),
            r is Err ==> *final(self) == *old(self),
    {
        match &self.config {
            None => return Err(Failure::Error(Error::NotInitialized)),
            Some(c) => {
                if earn_rate <= 0 {
                    return Err(Failure::Error(Error::InvalidRate));
                }
                match require_auth(env, &c.admin) {
                    Ok(()) => {},
                    Err(e) => return Err(e),
                }
            },
        }
        let ghost before = self.balances_spec();
        if let Some(c) = &mut self.config {
            c.earn_rate = earn_rate;
        }
        proof {
            assert forall|k: Seq<char>| #[trigger] self.balances_spec().dom().contains(k) implies self.balances_spec()[k].points >= 0 by {
                assert(before.dom().contains(k));
            }
        }
        Ok(())
    }

    pub fn set_redeem_rate(&mut self, env: &Env<LoyaltyEvent>, redeem_rate: i128) -> (r:
        LoyaltyResult<()>)
        requires
            old(self).wf(),
        ensures
            final(self).wf(),
            final(self).balances_spec() == old(self).balances_spec(),
            old(self).config_spec() is None ==> r == Err::<(), Failure<Error>>(
                Failure::Error(Error::NotInitialized),
            ),
            old(self).config_spec() is Some && redeem_rate <= 0 ==> r == Err::<(), Failure<Error>>(
                Failure::Error(Error::InvalidRate),
            ),
            old(self).config_spec() matches Some(c) ==> (redeem_rate > 0 ==> {
                &&& !env.auth.authorizes(c.admin@) ==> r == Err::<(), Failure<Error>>(
                    Failure::Trap(Trap::NotAuthorized(c.admin)),
                )
                &&& env.auth.authorizes(c.admin@) ==> r is Ok && final(self).config_spec() == Some(
                    LoyaltyConfig { redeem_rate, ..c },
                )
            }),
            r is Err ==> *final(self) == *old(self),
    {
        match &self.config {
            None => return Err(Failure::Error(Error::NotInitialized)),
            Some(c) => {
                if redeem_rate <= 0 {
                    return Err(Failure::Error(Error::InvalidRate));
                }
                match require_auth(env, &c.admin) {
                    Ok(()) => {},
                    Err(e) => return Err(e),
                }
            },
        }
        let ghost before = self.balances_spec();
        if let Some(c) = &mut self.config {
            c.redeem_rate = redeem_rate;
        }
        proof {
            assert forall|k: Seq<char>| #[trigger] self.balances_spec().dom().contains(k) implies self.balances_spec()[k].points >= 0 by {
                assert(before.dom().contains(k));
            }
        }
        Ok(())
    }

    pub fn transfer_admin(&mut self, env: &Env<LoyaltyEvent>, new_admin: Address) -> (r:
        LoyaltyResult<()>)
        requires
            old(self).wf(),
        ensures
            final(self).wf(),
            final(self).balances_spec() == old(self).balances_spec(),
            old(self).config_spec() is None ==> r == Err::<(), Failure<Error>>(
                Failure::Error(Error::NotInitialized),
            ),
            old(self).config_spec() matches Some(c) ==> {
                &&& !env.auth.authorizes(c.admin@) ==> r == Err::<(), Failure<Error>>(
                    Failure::Trap(Trap::NotAuthorized(c.admin)),
                )
                &&& env.auth.authorizes(c.admin@) ==> r is Ok && final(self).config_spec() == Some(
                    LoyaltyConfig { admin: new_admin, ..c },
                )
            },
            r is Err ==> *final(self) == *old(self),
    {
        match &self.config {
            None => return Err(Failure::Error(Error::NotInitialized)),
            Some(c) => {
                match require_auth(env, &c.admin) {
                    Ok(()) => {},
                    Err(e) => return Err(e),
                }
            },
        }
        let ghost before = self.balances_spec();
        if let Some(c) = &mut self.config {
            c.admin = new_admin;
        }
        proof {
            assert forall|k: Seq<char>| #[trigger] self.balances_spec().dom().contains(k) implies self.balances_spec()[k].points >= 0 by {
                assert(before.dom().contains(k));
            }
        }
        Ok(())
    }

    pub fn balance_of(&self, user: &Address) -> (r: LoyaltyResult<PointBalance>)
        requires
            self.wf(),
        ensures
            self.config_spec() is None ==> r == Err::<PointBalance, Failure<Error>>(
                Failure::Error(Error::NotInitialized),
            ),
            self.config_spec() is Some ==> r == Ok::<PointBalance, Failure<Error>>(
                self.balance_spec(user@),
            ),
    {
        if self.config.is_none() {
            return Err(Failure::Error(Error::NotInitialized));
        }
        match self.balances.get(user) {
            Some(b) => Ok(*b),
            None => Ok(PointBalance { points: 0, expires_at: 0 }),
        }
    }

    pub fn get_earn_rate(&self) -> (r: LoyaltyResult<i128>)
        ensures
            match self.config_spec() {
                None => r == Err::<i128, Failure<Error>>(Failure::Error(Error::NotInitialized)),
                Some(c) => r == Ok::<i128, Failure<Error>>(c.earn_rate),
            },
    {
        match &self.config {
            None => Err(Failure::Error(Error::NotInitialized)),
            Some(c) => Ok(c.earn_rate),
        }
    }

    pub fn get_redeem_rate(&self) -> (r: LoyaltyResult<i128>)
        ensures
            match self.config_spec() {
                None => r == Err::<i128, Failure<Error>>(Failure::Error(Error::NotInitialized)),
                Some(c) => r == Ok::<i128, Failure<Error>>(c.redeem_rate),
            },
    {
        match &self.config {
            None => Err(Failure::Error(Error::NotInitialized)),
            Some(c) => Ok(c.redeem_rate),
        }
    }
}

} // verus!
