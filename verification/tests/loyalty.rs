use payments_core::contract_env::{Address, AuthPolicy, Env, Failure, Trap};
use payments_core::loyalty::{Error, LoyaltyEvent, LoyaltyPoints, PointBalance};

fn env_at(seq: u32) -> Env<LoyaltyEvent> {
    Env::new(seq, Address::new("CLOYALTY"), AuthPolicy::Everyone)
}

fn admin() -> Address {
    Address::new("GADMIN")
}

fn user() -> Address {
    Address::new("GUSER")
}

/// An initialised contract: 10 points per 1 000 units, 2 tokens per point,
/// points live for `ttl` ledgers.
fn setup(ttl: u32) -> LoyaltyPoints {
    let mut c = LoyaltyPoints::new();
    let mut env = env_at(100);
    c.initialize(&mut env, admin(), Address::new("CTOKEN"), 10, 2, ttl).unwrap();
    c
}

fn err<T>(e: Error) -> Result<T, Failure<Error>> {
    Err(Failure::Error(e))
}

#[test]
fn test_loyalty_initialize_rejects_bad_rates_and_twice() {
    let mut c = LoyaltyPoints::new();
    let mut env = env_at(1);
    assert_eq!(
        c.initialize(&mut env, admin(), Address::new("CTOKEN"), 0, 2, 0),
        err(Error::InvalidRate)
    );
    assert_eq!(
        c.initialize(&mut env, admin(), Address::new("CTOKEN"), 10, -1, 0),
        err(Error::InvalidRate)
    );
    c.initialize(&mut env, admin(), Address::new("CTOKEN"), 10, 2, 0).unwrap();
    assert_eq!(
        c.initialize(&mut env, admin(), Address::new("CTOKEN"), 10, 2, 0),
        err(Error::AlreadyInitialized)
    );
}

#[test]
fn test_loyalty_uninitialized_calls_fail() {
    let mut c = LoyaltyPoints::new();
    let mut env = env_at(1);
    assert_eq!(c.earn(&mut env, user(), 1000), err(Error::NotInitialized));
    assert_eq!(c.redeem(&mut env, user(), 1), err(Error::NotInitialized));
    assert_eq!(c.balance_of(&user()), err(Error::NotInitialized));
    assert_eq!(c.get_earn_rate(), err(Error::NotInitialized));
    assert_eq!(c.get_redeem_rate(), err(Error::NotInitialized));
    assert_eq!(c.fund_reserve(&mut env, admin(), 5), err(Error::NotInitialized));
}

#[test]
fn test_loyalty_earn_formula() {
    let mut c = setup(0);
    let mut env = env_at(100);
    // 25 000 units at 10 per 1 000 = 250 points.
    assert_eq!(c.earn(&mut env, user(), 25_000), Ok(250));
    assert_eq!(c.balance_of(&user()), Ok(PointBalance { points: 250, expires_at: 0 }));
    assert_eq!(env.events.len(), 1);
    assert_eq!(env.events[0].topics(), ("loyalty", "earned"));
    // 99 units earn nothing and change nothing.
    assert_eq!(c.earn(&mut env, user(), 99), Ok(0));
    assert_eq!(env.events.len(), 1);
    assert_eq!(c.balance_of(&user()).unwrap().points, 250);
}

#[test]
fn test_loyalty_earn_zero_amount() {
    let mut c = setup(0);
    let mut env = env_at(100);
    assert_eq!(c.earn(&mut env, user(), 0), err(Error::ZeroAmount));
    assert_eq!(c.earn(&mut env, user(), -5), err(Error::ZeroAmount));
}

#[test]
fn test_loyalty_earn_requires_admin_signature() {
    let mut c = setup(0);
    let mut env = Env::new(100, Address::new("CLOYALTY"), AuthPolicy::Only(vec![user()]));
    assert_eq!(c.earn(&mut env, user(), 1000), Err(Failure::Trap(Trap::NotAuthorized(admin()))));
}

#[test]
fn test_loyalty_points_expire() {
    let mut c = setup(50);
    let mut env = env_at(100);
    c.earn(&mut env, user(), 10_000).unwrap();
    assert_eq!(c.balance_of(&user()), Ok(PointBalance { points: 100, expires_at: 150 }));
    // At the expiry ledger the points are still usable.
    let mut at_expiry = env_at(150);
    assert_eq!(c.redeem(&mut at_expiry, user(), 10), Ok(20));
    // One ledger later they are gone.
    let mut late = env_at(151);
    assert_eq!(c.redeem(&mut late, user(), 10), err(Error::PointsExpired));
    // Earning after expiry starts over.
    c.earn(&mut late, user(), 2_000).unwrap();
    assert_eq!(c.balance_of(&user()), Ok(PointBalance { points: 20, expires_at: 201 }));
}

#[test]
fn test_loyalty_earn_extends_live_balance() {
    let mut c = setup(50);
    c.earn(&mut env_at(100), user(), 10_000).unwrap();
    c.earn(&mut env_at(120), user(), 5_000).unwrap();
    assert_eq!(c.balance_of(&user()), Ok(PointBalance { points: 150, expires_at: 170 }));
}

#[test]
fn test_loyalty_redeem_pays_tokens() {
    let mut c = setup(0);
    let mut env = env_at(100);
    c.earn(&mut env, user(), 10_000).unwrap();
    let mut r = env_at(100);
    assert_eq!(c.redeem(&mut r, user(), 40), Ok(80));
    assert_eq!(r.transfers.len(), 1);
    assert_eq!(r.transfers[0].from.key, "CLOYALTY");
    assert_eq!(r.transfers[0].to.key, "GUSER");
    assert_eq!(r.transfers[0].amount, 80);
    assert_eq!(r.events[0].topics(), ("loyalty", "redeemed"));
    assert_eq!(c.balance_of(&user()).unwrap().points, 60);
}

#[test]
fn test_loyalty_redeem_errors() {
    let mut c = setup(0);
    let mut env = env_at(100);
    c.earn(&mut env, user(), 1_000).unwrap();
    assert_eq!(c.redeem(&mut env, user(), 0), err(Error::ZeroAmount));
    assert_eq!(c.redeem(&mut env, user(), 11), err(Error::InsufficientPoints));
    assert_eq!(c.redeem(&mut env, Address::new("GOTHER"), 1), err(Error::InsufficientPoints));
    let mut unsigned = Env::new(100, Address::new("CLOYALTY"), AuthPolicy::Only(vec![]));
    assert_eq!(c.redeem(&mut unsigned, user(), 1), Err(Failure::Trap(Trap::NotAuthorized(user()))));
}

#[test]
fn test_loyalty_earned_points_redeemable_at_once() {
    let mut c = setup(10);
    let mut env = env_at(7);
    let pts = c.earn(&mut env, user(), 3_000).unwrap();
    assert_eq!(c.redeem(&mut env_at(7), user(), pts), Ok(2 * pts));
}

#[test]
fn test_loyalty_fund_reserve() {
    let mut c = setup(0);
    let mut env = env_at(1);
    c.fund_reserve(&mut env, admin(), 500).unwrap();
    assert_eq!(env.transfers[0].from.key, "GADMIN");
    assert_eq!(env.transfers[0].to.key, "CLOYALTY");
    assert_eq!(env.transfers[0].amount, 500);
    assert_eq!(c.fund_reserve(&mut env, admin(), 0), err(Error::ZeroAmount));
    // Only the admin manages the reserve.
    assert_eq!(c.fund_reserve(&mut env, user(), 100), err(Error::Unauthorized));
    assert_eq!(env.transfers.len(), 1);
}

#[test]
fn test_loyalty_configuration() {
    let mut c = setup(0);
    let env = env_at(1);
    assert_eq!(c.set_earn_rate(&env, 0), err(Error::InvalidRate));
    c.set_earn_rate(&env, 20).unwrap();
    assert_eq!(c.get_earn_rate(), Ok(20));
    assert_eq!(c.set_redeem_rate(&env, -3), err(Error::InvalidRate));
    c.set_redeem_rate(&env, 5).unwrap();
    assert_eq!(c.get_redeem_rate(), Ok(5));
    c.transfer_admin(&env, Address::new("GNEWADMIN")).unwrap();
    let only_old = Env::new(1, Address::new("CLOYALTY"), AuthPolicy::Only(vec![admin()]));
    assert_eq!(
        c.set_earn_rate(&only_old, 30),
        Err(Failure::Trap(Trap::NotAuthorized(Address::new("GNEWADMIN"))))
    );
    let only_new = Env::new(1, Address::new("CLOYALTY"), AuthPolicy::Only(vec![Address::new("GNEWADMIN")]));
    c.set_earn_rate(&only_new, 30).unwrap();
    assert_eq!(c.get_earn_rate(), Ok(30));
}

#[test]
fn test_loyalty_overflow_traps() {
    let mut c = setup(0);
    let mut env = env_at(1);
    assert_eq!(c.earn(&mut env, user(), i128::MAX), Err(Failure::Trap(Trap::Overflow)));
    let mut c = setup(u32::MAX);
    assert_eq!(c.earn(&mut env_at(5), user(), 1000), Err(Failure::Trap(Trap::Overflow)));
}

#[test]
fn test_loyalty_error_codes() {
    assert_eq!(Error::AlreadyInitialized.code(), 1);
    assert_eq!(Error::PointsExpired.code(), 6);
    assert_eq!(Error::InvalidRate.code(), 7);
}
