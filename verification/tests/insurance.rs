use payments_core::contract_env::{Address, AuthPolicy, Env, Failure, Trap};
use payments_core::insurance::{Error, InsuranceEvent, PaymentInsurance, Policy, PolicyStatus};
use std::collections::HashMap;

// ---------------------------------------------------------------------------
// Harness: the contract, a token ledger that carries out its transfers, and
// the events it published.
// ---------------------------------------------------------------------------

struct Setup {
    contract: PaymentInsurance,
    ledger: HashMap<String, i128>,
    events: Vec<InsuranceEvent>,
    this: Address,
    admin: Address,
    token: Address,
    underwriter: Address,
    holder: Address,
    next_id: u32,
}

type Outcome<T> = Result<T, Failure<Error>>;

impl Setup {
    fn new() -> Self {
        let mut s = Setup {
            contract: PaymentInsurance::new(),
            ledger: HashMap::new(),
            events: Vec::new(),
            this: Address::new("CINSURANCE"),
            admin: Address::new("GADMIN"),
            token: Address::new("CTOKEN"),
            underwriter: Address::new("GUNDERWRITER"),
            holder: Address::new("GHOLDER"),
            next_id: 0,
        };
        let (admin, token) = (s.admin.clone(), s.token.clone());
        s.run(|c, env| c.initialize(env, admin, token)).unwrap();
        s
    }

    fn generate(&mut self) -> Address {
        self.next_id += 1;
        Address::new(&format!("GUSER{}", self.next_id))
    }

    /// Runs one invocation with every signature present; a successful one
    /// has its transfers carried out and its events recorded.
    fn run<T>(
        &mut self,
        f: impl FnOnce(&mut PaymentInsurance, &mut Env<InsuranceEvent>) -> Outcome<T>,
    ) -> Outcome<T> {
        let mut env = Env::new(0, self.this.clone(), AuthPolicy::Everyone);
        let saved = self.contract.clone();
        let r = f(&mut self.contract, &mut env);
        if r.is_ok() {
            for t in env.transfers.iter() {
                let from = self.ledger.get(&t.from.key).copied().unwrap_or(0);
                if from < t.amount {
                    self.contract = saved;
                    panic!("token transfer exceeds balance");
                }
                self.ledger.insert(t.from.key.clone(), from - t.amount);
                *self.ledger.entry(t.to.key.clone()).or_insert(0) += t.amount;
            }
            self.events.extend(env.events);
        }
        r
    }

    fn mint(&mut self, to: &Address, amount: i128) {
        *self.ledger.entry(to.key.clone()).or_insert(0) += amount;
    }

    fn token_balance(&self, who: &Address) -> i128 {
        self.ledger.get(&who.key).copied().unwrap_or(0)
    }

    fn has_event(&self, t0: &str, t1: &str) -> bool {
        self.events.iter().any(|e| e.topics() == (t0, t1))
    }

    fn add_underwriter(&mut self, who: &Address, stake: i128) -> Outcome<()> {
        let who = who.clone();
        self.run(|c, env| c.add_underwriter(env, who, stake))
    }

    fn remove_underwriter(&mut self, who: &Address) -> Outcome<i128> {
        let who = who.clone();
        self.run(|c, env| c.remove_underwriter(env, who))
    }

    fn create_risk_profile(&mut self, who: &Address, name: &str, bps: i128) -> Outcome<u32> {
        let who = who.clone();
        let name = name.to_string();
        self.run(|c, env| c.create_risk_profile(env, who, name, bps))
    }

    fn toggle_risk_profile(&mut self, who: &Address, id: u32, active: bool) -> Outcome<()> {
        let who = who.clone();
        self.run(|c, env| c.toggle_risk_profile(env, who, id, active))
    }

    fn buy_policy(&mut self, holder: &Address, coverage: i128, profile: u32) -> Outcome<u32> {
        let holder = holder.clone();
        self.run(|c, env| c.buy_policy(env, holder, coverage, profile))
    }

    fn submit_claim(&mut self, policy_id: u32, evidence: &str) -> Outcome<()> {
        let evidence = evidence.to_string();
        self.run(|c, env| c.submit_claim(env, policy_id, evidence))
    }

    fn process_claim(&mut self, policy_id: u32, approve: bool, payout: i128) -> Outcome<()> {
        self.run(|c, env| c.process_claim(env, policy_id, approve, payout))
    }

    fn get_policy(&self, policy_id: u32) -> Outcome<Policy> {
        self.contract.get_policy(policy_id)
    }

    fn stake_of(&self, who: &Address) -> Option<i128> {
        self.contract
            .get_underwriters()
            .into_iter()
            .find(|(a, _)| a.key == who.key)
            .map(|(_, s)| s)
    }
}

fn err<T>(e: Error) -> Outcome<T> {
    Err(Failure::Error(e))
}

// ---------------------------------------------------------------------------
// Initialisation tests
// ---------------------------------------------------------------------------

#[test]
fn test_initialize_stores_config() {
    let s = Setup::new();
    assert_eq!(s.contract.get_reserve(), 0);
    assert!(s.contract.get_underwriters().is_empty());
    assert_eq!(s.contract.get_total_stakes(), 0);
}

#[test]
fn test_initialize_emits_event() {
    let s = Setup::new();
    assert!(s.has_event("pay_ins", "init"));
}

#[test]
fn test_test_initialize_twice_fails() {
    let mut s = Setup::new();
    let (admin, token) = (s.admin.clone(), s.token.clone());
    let result = s.run(|c, env| c.initialize(env, admin, token));
    assert_eq!(result, err(Error::AlreadyInitialized));
}

// ---------------------------------------------------------------------------
// Underwriter management tests
// ---------------------------------------------------------------------------

#[test]
fn test_add_underwriter_increases_reserve() {
    let mut s = Setup::new();
    let u = s.underwriter.clone();
    s.mint(&u, 5000);
    s.add_underwriter(&u, 1000).unwrap();
    assert_eq!(s.contract.get_reserve(), 1000);
    assert_eq!(s.contract.get_total_stakes(), 1000);
    assert_eq!(s.token_balance(&u), 4000);
}

#[test]
fn test_add_underwriter_emits_event() {
    let mut s = Setup::new();
    let u = s.underwriter.clone();
    s.mint(&u, 1000);
    s.add_underwriter(&u, 1000).unwrap();
    assert!(s.has_event("pay_ins", "und_added"));
}

#[test]
fn test_add_underwriter_zero_fails() {
    let mut s = Setup::new();
    let u = s.underwriter.clone();
    let result = s.add_underwriter(&u, 0);
    assert_eq!(result, err(Error::ZeroAmount));
}

#[test]
fn test_remove_underwriter_returns_stake() {
    let mut s = Setup::new();
    let u = s.underwriter.clone();
    s.mint(&u, 5000);
    s.add_underwriter(&u, 1000).unwrap();
    assert_eq!(s.token_balance(&u), 4000);

    let stake = s.remove_underwriter(&u).unwrap();
    assert_eq!(stake, 1000);
    assert_eq!(s.token_balance(&u), 5000);
    assert_eq!(s.contract.get_reserve(), 0);
    assert_eq!(s.contract.get_total_stakes(), 0);
}

#[test]
fn test_remove_underwriter_not_found_fails() {
    let mut s = Setup::new();
    let unknown = s.generate();
    let result = s.remove_underwriter(&unknown);
    assert_eq!(result, err(Error::NotUnderwriter));
}

#[test]
fn test_add_underwriter_to_existing_stake_adds() {
    let mut s = Setup::new();
    let u = s.underwriter.clone();
    s.mint(&u, 5000);
    s.add_underwriter(&u, 1000).unwrap();
    s.add_underwriter(&u, 500).unwrap();
    assert_eq!(s.stake_of(&u).unwrap(), 1500);
    assert_eq!(s.contract.get_total_stakes(), 1500);
}

// ---------------------------------------------------------------------------
// Risk Profile Registry tests
// ---------------------------------------------------------------------------

#[test]
fn test_create_risk_profile() {
    let mut s = Setup::new();
    let admin = s.admin.clone();
    let id = s.create_risk_profile(&admin, "LowRisk", 500).unwrap();
    assert_eq!(id, 1);

    let profile = s.contract.get_risk_profile(1).unwrap();
    assert_eq!(profile.id, 1);
    assert_eq!(profile.name, "LowRisk");
    assert_eq!(profile.risk_bps, 500);
    assert!(profile.active);
}

#[test]
fn test_create_risk_profile_underwriter_authorized() {
    let mut s = Setup::new();
    let u = s.underwriter.clone();
    s.mint(&u, 5000);
    s.add_underwriter(&u, 1000).unwrap();

    let id = s.create_risk_profile(&u, "MedRisk", 1000).unwrap();
    assert_eq!(id, 1);
}

#[test]
fn test_create_risk_profile_unauthorized_fails() {
    let mut s = Setup::new();
    let holder = s.holder.clone();
    let result = s.create_risk_profile(&holder, "NoRisk", 500);
    assert_eq!(result, err(Error::Unauthorized));
}

#[test]
fn test_create_risk_profile_invalid_bps_fails() {
    let mut s = Setup::new();
    let admin = s.admin.clone();
    let result = s.create_risk_profile(&admin, "TooHigh", 15000);
    assert_eq!(result, err(Error::InvalidBps));
}

#[test]
fn test_toggle_risk_profile() {
    let mut s = Setup::new();
    let admin = s.admin.clone();
    let id = s.create_risk_profile(&admin, "LowRisk", 500).unwrap();
    s.toggle_risk_profile(&admin, id, false).unwrap();

    let profile = s.contract.get_risk_profile(id).unwrap();
    assert!(!profile.active);
}

// ---------------------------------------------------------------------------
// Premium calculation tests
// ---------------------------------------------------------------------------

#[test]
fn test_calculate_premium_basic() {
    let mut s = Setup::new();
    let admin = s.admin.clone();
    let id = s.create_risk_profile(&admin, "LowRisk", 500).unwrap();
    let premium = s.contract.calculate_premium(10000, id).unwrap();
    assert_eq!(premium, 500);
}

#[test]
fn test_calculate_premium_zero_coverage() {
    let mut s = Setup::new();
    let admin = s.admin.clone();
    let id = s.create_risk_profile(&admin, "LowRisk", 500).unwrap();
    let premium = s.contract.calculate_premium(0, id).unwrap();
    assert_eq!(premium, 0);
}

#[test]
fn test_calculate_premium_100_percent_risk() {
    let mut s = Setup::new();
    let admin = s.admin.clone();
    let id = s.create_risk_profile(&admin, "MaxRisk", 10000).unwrap();
    let premium = s.contract.calculate_premium(1000, id).unwrap();
    assert_eq!(premium, 1000);
}

#[test]
fn test_calculate_premium_inactive_profile_fails() {
    let mut s = Setup::new();
    let admin = s.admin.clone();
    let id = s.create_risk_profile(&admin, "Low", 500).unwrap();
    s.toggle_risk_profile(&admin, id, false).unwrap();

    let result = s.contract.calculate_premium(10000, id);
    assert_eq!(result, err(Error::RiskProfileInactive));
}

#[test]
fn test_calculate_premium_nonexistent_fails() {
    let s = Setup::new();
    let result = s.contract.calculate_premium(10000, 999);
    assert_eq!(result, err(Error::RiskProfileNotFound));
}

// ---------------------------------------------------------------------------
// Buy policy tests
// ---------------------------------------------------------------------------

#[test]
fn test_buy_policy_creates_policy_and_splits_premium() {
    let mut s = Setup::new();
    let (admin, holder) = (s.admin.clone(), s.holder.clone());
    let id = s.create_risk_profile(&admin, "LowRisk", 500).unwrap();

    s.mint(&holder, 1000);
    let policy_id = s.buy_policy(&holder, 10000, id).unwrap();

    let policy = s.get_policy(policy_id).unwrap();
    assert_eq!(policy.holder.key, holder.key);
    assert_eq!(policy.coverage_amount, 10000);
    assert_eq!(policy.premium_paid, 500);
    assert!(policy.active);

    // Premium is 500. 10% admin fee = 50, 90% reserve share = 450.
    // Holder balance should be 1000 - 500 = 500
    assert_eq!(s.token_balance(&holder), 500);
    // Reserve should be 450
    assert_eq!(s.contract.get_reserve(), 450);
    // Admin should receive 50 fee
    assert_eq!(s.token_balance(&admin), 50);
}

#[test]
fn test_buy_policy_mints_incrementing_ids() {
    let mut s = Setup::new();
    let (admin, holder) = (s.admin.clone(), s.holder.clone());
    let id = s.create_risk_profile(&admin, "Low", 500).unwrap();
    s.mint(&holder, 2000);
    let id1 = s.buy_policy(&holder, 1000, id).unwrap();
    let id2 = s.buy_policy(&holder, 1000, id).unwrap();
    assert_eq!(id2, id1 + 1);
}

#[test]
fn test_buy_policy_zero_coverage_fails() {
    let mut s = Setup::new();
    let (admin, holder) = (s.admin.clone(), s.holder.clone());
    let id = s.create_risk_profile(&admin, "LowRisk", 500).unwrap();
    let result = s.buy_policy(&holder, 0, id);
    assert_eq!(result, err(Error::ZeroAmount));
}

#[test]
fn test_buy_policy_emits_event() {
    let mut s = Setup::new();
    let (admin, holder) = (s.admin.clone(), s.holder.clone());
    let id = s.create_risk_profile(&admin, "Low", 500).unwrap();
    s.mint(&holder, 1000);
    s.buy_policy(&holder, 10000, id).unwrap();
    assert!(s.has_event("pay_ins", "p_bought"));
}

// ---------------------------------------------------------------------------
// Claim tests
// ---------------------------------------------------------------------------

#[test]
fn test_submit_claim_marks_pending() {
    let mut s = Setup::new();
    let (admin, holder) = (s.admin.clone(), s.holder.clone());
    let id = s.create_risk_profile(&admin, "LowRisk", 500).unwrap();

    s.mint(&holder, 1000);
    let policy_id = s.buy_policy(&holder, 10000, id).unwrap();

    s.submit_claim(policy_id, "evidence_hash_123").unwrap();

    let policy = s.get_policy(policy_id).unwrap();
    assert!(matches!(policy.claim_status, PolicyStatus::ClaimPending));
    assert_eq!(policy.evidence_hash, "evidence_hash_123");
}

#[test]
fn test_submit_claim_emits_event() {
    let mut s = Setup::new();
    let (admin, holder) = (s.admin.clone(), s.holder.clone());
    let id = s.create_risk_profile(&admin, "Low", 500).unwrap();
    s.mint(&holder, 1000);
    let policy_id = s.buy_policy(&holder, 10000, id).unwrap();
    s.submit_claim(policy_id, "ev").unwrap();
    assert!(s.has_event("pay_ins", "c_sub"));
}

#[test]
fn test_process_claim_approve_transfers_coverage() {
    let mut s = Setup::new();
    let (admin, holder, u) = (s.admin.clone(), s.holder.clone(), s.underwriter.clone());
    let id = s.create_risk_profile(&admin, "LowRisk", 500).unwrap();

    // Underwriter adds 50000 stake to reserve
    s.mint(&u, 60000);
    s.add_underwriter(&u, 50000).unwrap();

    // Holder buys policy. Premium = 500. Reserve increases by 450 (90%). Total reserve = 50450.
    s.mint(&holder, 1000);
    let policy_id = s.buy_policy(&holder, 10000, id).unwrap();
    assert_eq!(s.token_balance(&holder), 500);

    // Submit claim and approve
    s.submit_claim(policy_id, "ev").unwrap();
    s.process_claim(policy_id, true, 10000).unwrap();

    let policy = s.get_policy(policy_id).unwrap();
    assert!(!policy.active);
    assert!(matches!(policy.claim_status, PolicyStatus::ClaimApproved));

    // Holder balance becomes 500 + 10000 = 10500
    assert_eq!(s.token_balance(&holder), 10500);
    // Reserve becomes 50450 - 10000 = 40450
    assert_eq!(s.contract.get_reserve(), 40450);
}

#[test]
fn test_process_claim_approve_decreases_reserve() {
    let mut s = Setup::new();
    let (admin, holder, u) = (s.admin.clone(), s.holder.clone(), s.underwriter.clone());
    let id = s.create_risk_profile(&admin, "Low", 500).unwrap();

    s.mint(&u, 60000);
    s.add_underwriter(&u, 50000).unwrap();

    s.mint(&holder, 1000);
    let policy_id = s.buy_policy(&holder, 10000, id).unwrap();

    s.submit_claim(policy_id, "ev").unwrap();
    s.process_claim(policy_id, true, 10000).unwrap();

    assert_eq!(s.contract.get_reserve(), 40450); // 50000 stake + 450 premium share - 10000 payout
}

#[test]
fn test_process_claim_approve_emits_event() {
    let mut s = Setup::new();
    let (admin, holder, u) = (s.admin.clone(), s.holder.clone(), s.underwriter.clone());
    let id = s.create_risk_profile(&admin, "Low", 500).unwrap();

    s.mint(&u, 60000);
    s.add_underwriter(&u, 50000).unwrap();

    s.mint(&holder, 1000);
    let policy_id = s.buy_policy(&holder, 10000, id).unwrap();

    s.submit_claim(policy_id, "ev").unwrap();
    s.process_claim(policy_id, true, 10000).unwrap();

    assert!(s.has_event("pay_ins", "c_appr"));
}

#[test]
fn test_process_claim_deny_marks_denied() {
    let mut s = Setup::new();
    let (admin, holder) = (s.admin.clone(), s.holder.clone());
    let id = s.create_risk_profile(&admin, "Low", 500).unwrap();

    s.mint(&holder, 1000);
    let policy_id = s.buy_policy(&holder, 10000, id).unwrap();

    s.submit_claim(policy_id, "ev").unwrap();
    s.process_claim(policy_id, false, 10000).unwrap();

    let policy = s.get_policy(policy_id).unwrap();
    assert!(matches!(policy.claim_status, PolicyStatus::ClaimDenied));
    assert!(policy.active); // Policy is still active if denied
}

#[test]
fn test_process_claim_deny_emits_event() {
    let mut s = Setup::new();
    let (admin, holder) = (s.admin.clone(), s.holder.clone());
    let id = s.create_risk_profile(&admin, "Low", 500).unwrap();
    s.mint(&holder, 1000);
    let policy_id = s.buy_policy(&holder, 10000, id).unwrap();
    s.submit_claim(policy_id, "ev").unwrap();
    s.process_claim(policy_id, false, 10000).unwrap();
    assert!(s.has_event("pay_ins", "c_den"));
}

#[test]
fn test_process_claim_insufficient_reserve_fails() {
    let mut s = Setup::new();
    let (admin, holder) = (s.admin.clone(), s.holder.clone());
    let id = s.create_risk_profile(&admin, "Low", 500).unwrap();

    // Premium goes to reserve (450), but coverage is 10000
    s.mint(&holder, 1000);
    let policy_id = s.buy_policy(&holder, 10000, id).unwrap();

    s.submit_claim(policy_id, "ev").unwrap();
    let result = s.process_claim(policy_id, true, 10000);
    assert_eq!(result, err(Error::InsufficientReserve));
}

#[test]
fn test_submit_claim_nonexistent_policy_fails() {
    let mut s = Setup::new();
    let result = s.submit_claim(999, "ev");
    assert_eq!(result, err(Error::PolicyNotFound));
}

#[test]
fn test_process_claim_nonexistent_policy_fails() {
    let mut s = Setup::new();
    let result = s.process_claim(999, true, 10000);
    assert_eq!(result, err(Error::PolicyNotFound));
}

#[test]
fn test_get_policy_nonexistent_fails() {
    let s = Setup::new();
    let result = s.get_policy(999);
    assert!(matches!(result, Err(Failure::Error(Error::PolicyNotFound))));
}

// ---------------------------------------------------------------------------
// Proportional Loss-Sharing tests
// ---------------------------------------------------------------------------

#[test]
fn test_proportional_loss_sharing_underwriter_withdrawal() {
    let mut s = Setup::new();
    let (admin, holder, u) = (s.admin.clone(), s.holder.clone(), s.underwriter.clone());
    let id = s.create_risk_profile(&admin, "LowRisk", 500).unwrap();

    // Mint underwriter stakes and add them
    s.mint(&u, 50000);
    s.add_underwriter(&u, 50000).unwrap(); // Reserve = 50000

    let underwriter2 = s.generate();
    s.mint(&underwriter2, 50000);
    s.add_underwriter(&underwriter2, 50000).unwrap(); // Reserve = 100000

    // Holder buys policy. Premium = 5000. 10% fee = 500, 90% reserve share = 4500.
    // Total reserve = 104500. Total stakes = 100000.
    s.mint(&holder, 6000);
    let policy_id = s.buy_policy(&holder, 100000, id).unwrap();

    // A large claim of 50000 is approved and paid out
    s.submit_claim(policy_id, "ev").unwrap();
    s.process_claim(policy_id, true, 50000).unwrap();

    // Payout reduces reserve from 104500 to 54500.
    // Reserve (54500) < Total Stakes (100000). Underwriters share the loss!
    // Underwriter 1 withdraws. Their share is 50000 / 100000 = 50%.
    // Withdrawable = 50% * 54500 = 27250.
    let withdrawn = s.remove_underwriter(&u).unwrap();
    assert_eq!(withdrawn, 27250);
    assert_eq!(s.token_balance(&u), 27250);
}

// ---------------------------------------------------------------------------
// Further cases
// ---------------------------------------------------------------------------

#[test]
fn test_uninitialized_contract_refuses_underwriters() {
    let mut c = PaymentInsurance::new();
    let mut env: Env<InsuranceEvent> = Env::new(0, Address::new("C"), AuthPolicy::Everyone);
    assert_eq!(c.add_underwriter(&mut env, Address::new("G"), 10), err(Error::NotInitialized));
    assert_eq!(c.remove_underwriter(&mut env, Address::new("G")), err(Error::NotInitialized));
    assert_eq!(
        c.create_risk_profile(&mut env, Address::new("G"), "x".to_string(), 1),
        err(Error::NotInitialized)
    );
    assert_eq!(
        c.toggle_risk_profile(&mut env, Address::new("G"), 1, true),
        err(Error::NotInitialized)
    );
    // Processing a claim reads the admin first, which is not stored yet.
    assert_eq!(
        c.process_claim(&mut env, 1, true, 1),
        Err(Failure::Trap(Trap::MissingEntry))
    );
}

#[test]
fn test_missing_signature_traps() {
    let mut s = Setup::new();
    let u = s.underwriter.clone();
    s.mint(&u, 100);
    let mut env = Env::new(0, s.this.clone(), AuthPolicy::Only(vec![s.admin.clone()]));
    let r = s.contract.add_underwriter(&mut env, u.clone(), 100);
    assert_eq!(r, Err(Failure::Trap(Trap::NotAuthorized(u))));
    assert!(env.transfers.is_empty());
    assert_eq!(s.contract.get_reserve(), 0);
}

#[test]
fn test_claim_cannot_be_paid_twice() {
    let mut s = Setup::new();
    let (admin, holder, u) = (s.admin.clone(), s.holder.clone(), s.underwriter.clone());
    let id = s.create_risk_profile(&admin, "Low", 500).unwrap();
    s.mint(&u, 20000);
    s.add_underwriter(&u, 20000).unwrap();
    s.mint(&holder, 1000);
    let policy_id = s.buy_policy(&holder, 10000, id).unwrap();
    s.submit_claim(policy_id, "ev").unwrap();
    s.process_claim(policy_id, true, 5000).unwrap();
    assert_eq!(s.process_claim(policy_id, true, 5000), err(Error::AlreadyProcessed));
    assert_eq!(s.submit_claim(policy_id, "again"), err(Error::AlreadyProcessed));
}

#[test]
fn test_denied_claim_cannot_be_resubmitted() {
    let mut s = Setup::new();
    let (admin, holder) = (s.admin.clone(), s.holder.clone());
    let id = s.create_risk_profile(&admin, "Low", 500).unwrap();
    s.mint(&holder, 1000);
    let policy_id = s.buy_policy(&holder, 10000, id).unwrap();
    s.submit_claim(policy_id, "ev").unwrap();
    s.process_claim(policy_id, false, 100).unwrap();
    assert_eq!(s.submit_claim(policy_id, "ev2"), err(Error::AlreadyProcessed));
}

#[test]
fn test_payout_out_of_range_is_rejected() {
    let mut s = Setup::new();
    let (admin, holder) = (s.admin.clone(), s.holder.clone());
    let id = s.create_risk_profile(&admin, "Low", 500).unwrap();
    s.mint(&holder, 1000);
    let policy_id = s.buy_policy(&holder, 10000, id).unwrap();
    assert_eq!(s.process_claim(policy_id, true, 100), err(Error::AlreadyProcessed));
    s.submit_claim(policy_id, "ev").unwrap();
    assert_eq!(s.process_claim(policy_id, true, 0), err(Error::ZeroAmount));
    assert_eq!(s.process_claim(policy_id, true, 10001), err(Error::ZeroAmount));
}

#[test]
fn test_negative_coverage_premium_rounds_toward_zero() {
    let mut s = Setup::new();
    let admin = s.admin.clone();
    let id = s.create_risk_profile(&admin, "Odd", 3).unwrap();
    // -5000 * 3 / 10000 = -1.5, rounded toward zero.
    assert_eq!(s.contract.calculate_premium(-5000, id), Ok(-1));
    assert_eq!(s.contract.calculate_premium(5000, id), Ok(1));
}

#[test]
fn test_small_premium_pays_no_fee() {
    let mut s = Setup::new();
    let (admin, holder) = (s.admin.clone(), s.holder.clone());
    let id = s.create_risk_profile(&admin, "Tiny", 1).unwrap();
    s.mint(&holder, 100);
    // Premium 9: fee 9 * 10 / 100 = 0, all of it goes to the reserve.
    s.buy_policy(&holder, 90000, id).unwrap();
    assert_eq!(s.contract.get_reserve(), 9);
    assert_eq!(s.token_balance(&admin), 0);
}

#[test]
fn test_toggle_unknown_profile_fails() {
    let mut s = Setup::new();
    let admin = s.admin.clone();
    assert_eq!(s.toggle_risk_profile(&admin, 7, true), err(Error::RiskProfileNotFound));
}

#[test]
fn test_removed_underwriter_loses_profile_rights() {
    let mut s = Setup::new();
    let u = s.underwriter.clone();
    s.mint(&u, 100);
    s.add_underwriter(&u, 100).unwrap();
    s.remove_underwriter(&u).unwrap();
    assert_eq!(s.create_risk_profile(&u, "Late", 10), err(Error::Unauthorized));
}

#[test]
fn test_error_codes() {
    assert_eq!(Error::AlreadyInitialized.code(), 1);
    assert_eq!(Error::InsufficientReserve.code(), 7);
    assert_eq!(Error::InvalidBps.code(), 11);
}
