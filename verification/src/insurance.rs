//! Payment insurance: holders buy policies priced by a risk profile, file
//! claims, and the admin approves or denies them. Underwriters stake
//! collateral into a reserve that pays approved claims; when they leave they
//! take their share of what the reserve still holds.
use crate::contract_env::{require_auth, Address, Env, Failure, Transfer, Trap};
use crate::table::{entries_map, keys_distinct, Table};
use vstd::prelude::*;

verus! {

/// Basis points in one whole (100 %).
pub const BPS_DIVISOR: i128 = 10_000;

#[derive(Debug, Clone, Copy, PartialEq, Eq, Structural)]
pub enum PolicyStatus {
    Active,
    ClaimPending,
    ClaimApproved,
    ClaimDenied,
}

#[derive(Debug, Clone)]
pub struct Policy {
    pub holder: Address,
    pub coverage_amount: i128,
    pub premium_paid: i128,
    pub active: bool,
    pub claim_status: PolicyStatus,
    pub risk_profile_id: u32,
    pub evidence_hash: String,
}

impl Policy {
    pub fn duplicate(&self) -> (r: Policy)
        ensures
            r == *self,
    {
        Policy {
            holder: self.holder.duplicate(),
            coverage_amount: self.coverage_amount,
            premium_paid: self.premium_paid,
            active: self.active,
            claim_status: self.claim_status,
            risk_profile_id: self.risk_profile_id,
            evidence_hash: self.evidence_hash.clone(),
        }
    }
}

#[derive(Debug, Clone)]
pub struct RiskProfile {
    pub id: u32,
    pub name: String,
    pub risk_bps: i128,
    pub active: bool,
}

impl RiskProfile {
    pub fn duplicate(&self) -> (r: RiskProfile)
        ensures
            r == *self,
    {
        RiskProfile {
            id: self.id,
            name: self.name.clone(),
            risk_bps: self.risk_bps,
            active: self.active,
        }
    }
}

#[derive(Debug, Clone, Copy, PartialEq, Eq, Structural)]
pub enum Error {
    AlreadyInitialized,
    NotInitialized,
    Unauthorized,
    ZeroAmount,
    PolicyNotFound,
    AlreadyProcessed,
    InsufficientReserve,
    NotUnderwriter,
    RiskProfileNotFound,
    RiskProfileInactive,
    InvalidBps,
}

impl Error {
    /// The numeric code the contract reports for this error.
    pub fn code(&self) -> (c: u32)
        ensures
            1 <= c <= 11,
            *self == Error::AlreadyInitialized <==> c == 1,
            *self == Error::NotInitialized <==> c == 2,
            *self == Error::Unauthorized <==> c == 3,
            *self == Error::ZeroAmount <==> c == 4,
            *self == Error::PolicyNotFound <==> c == 5,
            *self == Error::AlreadyProcessed <==> c == 6,
            *self == Error::InsufficientReserve <==> c == 7,
            *self == Error::NotUnderwriter <==> c == 8,
            *self == Error::RiskProfileNotFound <==> c == 9,
            *self == Error::RiskProfileInactive <==> c == 10,
            *self == Error::InvalidBps <==> c == 11,
    {
        match self {
            Error::AlreadyInitialized => 1,
            Error::NotInitialized => 2,
            Error::Unauthorized => 3,
            Error::ZeroAmount => 4,
            Error::PolicyNotFound => 5,
            Error::AlreadyProcessed => 6,
            Error::InsufficientReserve => 7,
            Error::NotUnderwriter => 8,
            Error::RiskProfileNotFound => 9,
            Error::RiskProfileInactive => 10,
            Error::InvalidBps => 11,
        }
    }
}

/// Events the contract publishes, under the topics ("pay_ins", ...).
#[derive(Debug, Clone)]
pub enum InsuranceEvent {
    Initialized { admin: Address },
    UnderwriterAdded { underwriter: Address, stake: i128 },
    UnderwriterRemoved { underwriter: Address, withdrawn: i128 },
    RiskProfileCreated { id: u32, risk_bps: i128 },
    RiskProfileToggled { id: u32, active: bool },
    PolicyBought { policy_id: u32, premium: i128 },
    ClaimSubmitted { policy_id: u32 },
    ClaimApproved { policy_id: u32 },
    ClaimDenied { policy_id: u32 },
}

impl InsuranceEvent {
    /// The event's two topic symbols.
    pub fn topics(&self) -> (t: (&'static str, &'static str))
        ensures
            t.0@ == "pay_ins"@,
            self is Initialized ==> t.1@ == "init"@,
            self is UnderwriterAdded ==> t.1@ == "und_added"@,
            self is UnderwriterRemoved ==> t.1@ == "und_rem"@,
            self is RiskProfileCreated ==> t.1@ == "rp_cre"@,
            self is RiskProfileToggled ==> t.1@ == "rp_tog"@,
            self is PolicyBought ==> t.1@ == "p_bought"@,
            self is ClaimSubmitted ==> t.1@ == "c_sub"@,
            self is ClaimApproved ==> t.1@ == "c_appr"@,
            self is ClaimDenied ==> t.1@ == "c_den"@,
    {
        match self {
            InsuranceEvent::Initialized { .. } => ("pay_ins", "init"),
            InsuranceEvent::UnderwriterAdded { .. } => ("pay_ins", "und_added"),
            InsuranceEvent::UnderwriterRemoved { .. } => ("pay_ins", "und_rem"),
            InsuranceEvent::RiskProfileCreated { .. } => ("pay_ins", "rp_cre"),
            InsuranceEvent::RiskProfileToggled { .. } => ("pay_ins", "rp_tog"),
            InsuranceEvent::PolicyBought { .. } => ("pay_ins", "p_bought"),
            InsuranceEvent::ClaimSubmitted { .. } => ("pay_ins", "c_sub"),
            InsuranceEvent::ClaimApproved { .. } => ("pay_ins", "c_appr"),
            InsuranceEvent::ClaimDenied { .. } => ("pay_ins", "c_den"),
        }
    }
}

/// What `initialize` stores.
#[derive(Debug, Clone)]
pub struct InsuranceConfig {
    pub admin: Address,
    pub token: Address,
}

/// The contract's storage as plain parts, for loading and saving.
pub struct InsuranceParts {
    pub config: Option<InsuranceConfig>,
    pub reserve: i128,
    pub total_stakes: i128,
    pub underwriters: Vec<(Address, i128)>,
    pub risk_profiles: Vec<(u32, RiskProfile)>,
    pub policy_counter: u32,
    pub risk_counter: u32,
    pub policies: Vec<(u32, Policy)>,
}

/// The contract's instance storage.
#[derive(Debug, Clone)]
pub struct PaymentInsurance {
    config: Option<InsuranceConfig>,
    reserve: i128,
    total_stakes: i128,
    underwriters: Table<Address, i128>,
    risk_profiles: Table<u32, RiskProfile>,
    policy_counter: u32,
    risk_counter: u32,
    policies: Table<u32, Policy>,
}

pub type InsuranceResult<T> = Result<T, Failure<Error>>;

pub open spec fn fits_i128(x: int) -> bool {
    i128::MIN <= x <= i128::MAX
}

/// Integer division rounding toward zero, as `i128` division does (`d > 0`).
pub open spec fn div_toward_zero(x: int, d: int) -> int {
    if x >= 0 {
        x / d
    } else {
        -((-x) / d)
    }
}

/// The premium for `coverage` at `risk_bps` basis points.
pub open spec fn premium_for(coverage: int, risk_bps: int) -> int {
    div_toward_zero(coverage * risk_bps, 10000)
}

/// The protocol fee kept from a premium: 10 %, rounded toward zero.
pub open spec fn protocol_fee(premium: int) -> int {
    div_toward_zero(premium * 10, 100)
}

/// What an underwriter with `stake` takes out of `reserve` when leaving: the
/// whole stake while the reserve covers all stakes, otherwise the stake's
/// proportional share of the reserve, rounded down.
pub open spec fn withdrawable_for(stake: int, reserve: int, total: int) -> int {
    if total == 0 {
        0
    } else if reserve >= total {
        stake
    } else {
        stake * reserve / total
    }
}

/// Every underwriter entry holds a positive stake.
pub open spec fn stakes_positive(s: Seq<(Address, i128)>) -> bool {
    forall|j: int| 0 <= j < s.len() ==> #[trigger] s[j].1 > 0
}

/// Every profile is stored under its own id and charges between 0 and 100 %.
pub open spec fn profiles_valid(m: Map<u32, RiskProfile>) -> bool {
    forall|id: u32| #[trigger]
        m.dom().contains(id) ==> 0 <= m[id].risk_bps <= 10000 && m[id].id == id
}

/// The sum of the stakes in an entry list.
pub open spec fn stake_total(s: Seq<(Address, i128)>) -> int
    decreases s.len(),
{
    if s.len() == 0 {
        0
    } else {
        stake_total(s.drop_last()) + s.last().1
    }
}

pub proof fn lemma_stake_total_update(s: Seq<(Address, i128)>, i: int, e: (Address, i128))
    requires
        0 <= i < s.len(),
    ensures
        stake_total(s.update(i, e)) == stake_total(s) - s[i].1 + e.1,
    decreases s.len(),
{
    let t = s.update(i, e);
    if i == s.len() - 1 {
        assert(t.drop_last() =~= s.drop_last());
    } else {
        assert(t.drop_last() =~= s.drop_last().update(i, e));
        lemma_stake_total_update(s.drop_last(), i, e);
    }
}

pub proof fn lemma_stake_total_remove(s: Seq<(Address, i128)>, i: int)
    requires
        0 <= i < s.len(),
    ensures
        stake_total(s.remove(i)) == stake_total(s) - s[i].1,
    decreases s.len(),
{
    let t = s.remove(i);
    if i == s.len() - 1 {
        assert(t =~= s.drop_last());
    } else {
        assert(t.drop_last() =~= s.drop_last().remove(i));
        assert(t.last() == s.last());
        lemma_stake_total_remove(s.drop_last(), i);
    }
}

pub proof fn lemma_stake_total_nonneg(s: Seq<(Address, i128)>)
    requires
        forall|j: int| 0 <= j < s.len() ==> #[trigger] s[j].1 > 0,
    ensures
        stake_total(s) >= 0,
    decreases s.len(),
{
    if s.len() > 0 {
        let t = s.drop_last();
        assert forall|j: int| 0 <= j < t.len() implies #[trigger] t[j].1 > 0 by {
            assert(t[j] == s[j]);
        }
        lemma_stake_total_nonneg(t);
        assert(s[s.len() - 1].1 > 0);
    }
}

pub proof fn lemma_stake_total_concat(a: Seq<(Address, i128)>, b: Seq<(Address, i128)>)
    ensures
        stake_total(a + b) == stake_total(a) + stake_total(b),
    decreases b.len(),
{
    if b.len() > 0 {
        assert((a + b).drop_last() =~= a + b.drop_last());
        lemma_stake_total_concat(a, b.drop_last());
    } else {
        assert(a + b =~= a);
    }
}

pub proof fn lemma_stake_le_total(s: Seq<(Address, i128)>, i: int)
    requires
        0 <= i < s.len(),
        forall|j: int| 0 <= j < s.len() ==> #[trigger] s[j].1 > 0,
    ensures
        0 < s[i].1 <= stake_total(s),
    decreases s.len(),
{
    let t = s.drop_last();
    assert forall|j: int| 0 <= j < t.len() implies #[trigger] t[j].1 > 0 by {
        assert(t[j] == s[j]);
    }
    assert(s[s.len() - 1].1 > 0);
    if i < s.len() - 1 {
        assert(t[i] == s[i]);
        lemma_stake_le_total(t, i);
    } else {
        lemma_stake_total_nonneg(t);
    }
}

proof fn lemma_withdrawable_bounds(stake: int, reserve: int, total: int)
    requires
        0 < stake <= total,
        0 <= reserve < total,
    ensures
        0 <= stake * reserve / total <= reserve,
        stake * reserve / total <= stake,
{
    assert(0 <= stake * reserve) by (nonlinear_arith)
        requires
            0 < stake,
            0 <= reserve,
    ;
    assert(stake * reserve <= total * reserve) by (nonlinear_arith)
        requires
            stake <= total,
            0 <= reserve,
    ;
    assert(stake * reserve <= stake * total) by (nonlinear_arith)
        requires
            0 < stake,
            reserve < total,
    ;
    assert(stake * reserve / total <= total * reserve / total) by (nonlinear_arith)
        requires
            stake * reserve <= total * reserve,
            total > 0,
    ;
    assert(total * reserve / total == reserve) by (nonlinear_arith)
        requires
            total > 0,
    ;
    assert(stake * reserve / total <= stake * total / total) by (nonlinear_arith)
        requires
            stake * reserve <= stake * total,
            total > 0,
    ;
    assert(stake * total / total == stake) by (nonlinear_arith)
        requires
            total > 0,
    ;
    assert(0 <= stake * reserve / total) by (nonlinear_arith)
        requires
            0 <= stake * reserve,
            total > 0,
    ;
}

/// A premium never exceeds the cover bought: for non-negative cover at a rate
/// between 0 and 100 %, the premium lies between 0 and the cover.
pub proof fn lemma_premium_within_coverage(coverage: int, risk_bps: int)
    requires
        0 <= coverage,
        0 <= risk_bps <= 10000,
    ensures
        0 <= premium_for(coverage, risk_bps) <= coverage,
{
    assert(0 <= coverage * risk_bps <= coverage * 10000) by (nonlinear_arith)
        requires
            0 <= coverage,
            0 <= risk_bps <= 10000,
    ;
}

/// The premium is `coverage * risk_bps / 10 000` rounded toward zero: times
/// 10 000 it is within 10 000 of the exact product, on the product's side of
/// zero.
pub proof fn lemma_premium_rounding(coverage: int, risk_bps: int)
    ensures
        ({
            let x = coverage * risk_bps;
            let p = premium_for(coverage, risk_bps);
            &&& x >= 0 ==> 0 <= p * 10000 <= x < (p + 1) * 10000
            &&& x < 0 ==> (p - 1) * 10000 < x <= p * 10000 <= 0
        }),
{
    let x = coverage * risk_bps;
    if x >= 0 {
        let q = x / 10000;
        assert(0 <= q * 10000 <= x < (q + 1) * 10000) by (nonlinear_arith)
            requires
                x >= 0,
                q == x / 10000,
        ;
    } else {
        let q = (-x) / 10000;
        assert(0 <= q * 10000 <= -x < (q + 1) * 10000) by (nonlinear_arith)
            requires
                -x > 0,
                q == (-x) / 10000,
        ;
    }
}

/// The premium is split without loss: the protocol fee is a tenth of the
/// premium rounded down, and fee plus reserve share is the whole premium.
pub proof fn lemma_premium_split(premium: int)
    requires
        premium >= 0,
    ensures
        protocol_fee(premium) == premium / 10,
        0 <= protocol_fee(premium) <= premium,
        protocol_fee(premium) + (premium - protocol_fee(premium)) == premium,
{
    assert(premium * 10 / 100 == premium / 10) by (nonlinear_arith)
        requires
            premium >= 0,
    ;
}

/// Underwriters share losses in proportion to their stakes: while the
/// reserve covers all stakes a leaving underwriter takes its whole stake;
/// otherwise it takes `stake / total` of the reserve, rounded down, which is
/// never more than its stake nor than the reserve.
pub proof fn lemma_withdrawal_share(stake: int, reserve: int, total: int)
    requires
        0 < stake <= total,
        0 <= reserve,
    ensures
        reserve >= total ==> withdrawable_for(stake, reserve, total) == stake,
        0 <= withdrawable_for(stake, reserve, total) <= stake,
        withdrawable_for(stake, reserve, total) <= reserve,
        reserve < total ==> withdrawable_for(stake, reserve, total) * total <= stake * reserve < (
        withdrawable_for(stake, reserve, total) + 1) * total,
{
    if reserve < total {
        lemma_withdrawable_bounds(stake, reserve, total);
        let w = stake * reserve / total;
        assert(w * total <= stake * reserve < (w + 1) * total) by (nonlinear_arith)
            requires
                w == stake * reserve / total,
                total > 0,
        ;
    }
}

/// A claim can be filed on the policy: it is active and carries no claim yet.
pub open spec fn claim_open(p: Policy) -> bool {
    p.active && p.claim_status == PolicyStatus::Active
}

/// A filed claim awaits the admin's decision.
pub open spec fn claim_pending(p: Policy) -> bool {
    p.active && p.claim_status == PolicyStatus::ClaimPending
}

/// Claims move one way: filing takes an open policy to a pending claim, and a
/// decision takes a pending claim to approved (the policy closes) or denied.
/// A decided policy accepts neither a new claim nor a second decision, so a
/// claim is paid at most once.
pub proof fn lemma_claim_lifecycle(p: Policy, evidence_hash: String)
    ensures
        claim_open(p) ==> claim_pending(
            Policy { claim_status: PolicyStatus::ClaimPending, evidence_hash, ..p },
        ),
        ({
            let approved = Policy { active: false, claim_status: PolicyStatus::ClaimApproved, ..p };
            !claim_open(approved) && !claim_pending(approved)
        }),
        ({
            let denied = Policy { claim_status: PolicyStatus::ClaimDenied, ..p };
            !claim_open(denied) && !claim_pending(denied)
        }),
        !(claim_open(p) && claim_pending(p)),
{
}

impl PaymentInsurance {
    pub closed spec fn config_spec(&self) -> Option<InsuranceConfig> {
        self.config
    }

    pub closed spec fn reserve_spec(&self) -> i128 {
        self.reserve
    }

    pub closed spec fn total_stakes_spec(&self) -> i128 {
        self.total_stakes
    }

    /// Stakes by underwriter.
    pub closed spec fn underwriters_spec(&self) -> Map<Seq<char>, i128> {
        self.underwriters@
    }

    /// The underwriter entries in storage order.
    pub closed spec fn stake_entries(&self) -> Seq<(Address, i128)> {
        self.underwriters.entry_seq()
    }

    pub closed spec fn profiles_spec(&self) -> Map<u32, RiskProfile> {
        self.risk_profiles@
    }

    pub closed spec fn policies_spec(&self) -> Map<u32, Policy> {
        self.policies@
    }

    pub closed spec fn policy_counter_spec(&self) -> u32 {
        self.policy_counter
    }

    pub closed spec fn risk_counter_spec(&self) -> u32 {
        self.risk_counter
    }

    pub closed spec fn tables_ok(&self) -> bool {
        &&& self.underwriters.wf()
        &&& self.risk_profiles.wf()
        &&& self.policies.wf()
    }

    /// The reserve is never negative, the recorded total is the sum of the
    /// underwriters' stakes (each positive), and every risk profile is stored
    /// under its own id with a rate between 0 and 100 %.
    pub open spec fn wf(&self) -> bool {
        &&& self.tables_ok()
        &&& self.reserve_spec() >= 0
        &&& self.total_stakes_spec() == stake_total(self.stake_entries())
        &&& self.underwriters_spec() == entries_map(self.stake_entries())
        &&& keys_distinct(self.stake_entries())
        &&& stakes_positive(self.stake_entries())
        &&& profiles_valid(self.profiles_spec())
    }

    /// `who` may manage risk profiles: the admin or a registered underwriter.
    pub open spec fn may_manage(&self, who: Seq<char>) -> bool {
        self.config_spec() matches Some(c) && (c.admin@ == who || self.underwriters_spec().dom().contains(who))
    }

    /// The stake of `who`, 0 when not an underwriter.
    pub open spec fn stake_of(&self, who: Seq<char>) -> int {
        if self.underwriters_spec().dom().contains(who) {
            self.underwriters_spec()[who] as int
        } else {
            0
        }
    }

    /// The underwriter pool (reserve, total, stakes) is the same in both states.
    pub open spec fn same_pool(&self, other: &Self) -> bool {
        &&& self.reserve_spec() == other.reserve_spec()
        &&& self.total_stakes_spec() == other.total_stakes_spec()
        &&& self.underwriters_spec() == other.underwriters_spec()
        &&& self.stake_entries() == other.stake_entries()
    }

    /// The risk-profile registry is the same in both states.
    pub open spec fn same_catalog(&self, other: &Self) -> bool {
        &&& self.profiles_spec() == other.profiles_spec()
        &&& self.risk_counter_spec() == other.risk_counter_spec()
    }

    /// The policy book is the same in both states.
    pub open spec fn same_book(&self, other: &Self) -> bool {
        &&& self.policies_spec() == other.policies_spec()
        &&& self.policy_counter_spec() == other.policy_counter_spec()
    }

    proof fn lemma_stake_facts(&self, who: Seq<char>)
        requires
            self.wf(),
            self.underwriters_spec().dom().contains(who),
        ensures
            0 < self.underwriters_spec()[who] <= self.total_stakes_spec(),
    {
        self.underwriters.lemma_entries();
        let i = choose|i: int| 0 <= i < self.stake_entries().len() && #[trigger] self.stake_entries()[i].0@ == who;
        lemma_stake_le_total(self.stake_entries(), i);
    }

    /// A contract that has not been initialised.
    pub fn new() -> (s: Self)
        ensures
            s.wf(),
            s.config_spec() is None,
            s.reserve_spec() == 0,
            s.total_stakes_spec() == 0,
            s.underwriters_spec() == Map::<Seq<char>, i128>::empty(),
            s.profiles_spec() == Map::<u32, RiskProfile>::empty(),
            s.policies_spec() == Map::<u32, Policy>::empty(),
            s.policy_counter_spec() == 0,
            s.risk_counter_spec() == 0,
    {
        let s = PaymentInsurance {
            config: None,
            reserve: 0,
            total_stakes: 0,
            underwriters: Table::new(),
            risk_profiles: Table::new(),
            policy_counter: 0,
            risk_counter: 0,
            policies: Table::new(),
        };
        proof {
            s.underwriters.lemma_entries();
        }
        s
    }

    /// Rebuilds the contract from stored parts; `None` when they break the
    /// contract's invariant (a negative reserve, a key listed twice, a
    /// non-positive stake, a total that is not the sum of the stakes, or a
    /// profile out of range or stored under another id).
    pub fn from_parts(parts: InsuranceParts) -> (r: Option<Self>)
        ensures
            r is Some <==> {
                &&& parts.reserve >= 0
                &&& keys_distinct(parts.underwriters@)
                &&& stakes_positive(parts.underwriters@)
                &&& parts.total_stakes == stake_total(parts.underwriters@)
                &&& keys_distinct(parts.risk_profiles@)
                &&& profiles_valid(entries_map(parts.risk_profiles@))
                &&& keys_distinct(parts.policies@)
            },
            r matches Some(s) ==> {
                &&& s.wf()
                &&& s.config_spec() == parts.config
                &&& s.reserve_spec() == parts.reserve
                &&& s.total_stakes_spec() == parts.total_stakes
                &&& s.stake_entries() == parts.underwriters@
                &&& s.underwriters_spec() == entries_map(parts.underwriters@)
                &&& s.profiles_spec() == entries_map(parts.risk_profiles@)
                &&& s.policies_spec() == entries_map(parts.policies@)
                &&& s.policy_counter_spec() == parts.policy_counter
                &&& s.risk_counter_spec() == parts.risk_counter
            },
    {
        if parts.reserve < 0 {
            return None;
        }
        let n = parts.underwriters.len();
        let mut sum: i128 = 0;
        let mut i: usize = 0;
        while i < n
            invariant
                n == parts.underwriters@.len(),
                0 <= i <= n,
                stakes_positive(parts.underwriters@.subrange(0, i as int)),
                sum == stake_total(parts.underwriters@.subrange(0, i as int)),
            decreases n - i,
        {
            let stake = parts.underwriters[i].1;
            proof {
                let t = parts.underwriters@.subrange(0, i + 1);
                assert(t.drop_last() =~= parts.underwriters@.subrange(0, i as int));
                assert(t.last() == parts.underwriters@[i as int]);
            }
            if stake <= 0 {
                proof {
                    assert(parts.underwriters@[i as int].1 <= 0);
                }
                return None;
            }
            sum = match sum.checked_add(stake) {
                Some(v) => v,
                None => {
                    proof {
                        let t = parts.underwriters@.subrange(0, i + 1);
                        assert(stake_total(t) > i128::MAX);
                        assert forall|j: int| 0 <= j < t.len() implies #[trigger] t[j].1 > 0 by {
                            if j < i {
                                assert(t[j] == parts.underwriters@.subrange(0, i as int)[j]);
                            }
                        }
                        let rest = parts.underwriters@.subrange(i + 1, n as int);
                        assert(parts.underwriters@ =~= t + rest);
                        lemma_stake_total_concat(t, rest);
                        if stakes_positive(parts.underwriters@) {
                            assert forall|j: int| 0 <= j < rest.len() implies #[trigger] rest[j].1 > 0 by {
                                assert(rest[j] == parts.underwriters@[i + 1 + j]);
                            }
                            lemma_stake_total_nonneg(rest);
                        }
                    }
                    return None;
                },
            };
            proof {
                let t = parts.underwriters@.subrange(0, i + 1);
                assert forall|j: int| 0 <= j < t.len() implies #[trigger] t[j].1 > 0 by {
                    if j < i {
                        assert(t[j] == parts.underwriters@.subrange(0, i as int)[j]);
                    }
                }
            }
            i = i + 1;
        }
        proof {
            assert(parts.underwriters@.subrange(0, n as int) =~= parts.underwriters@);
        }
        if sum != parts.total_stakes {
            return None;
        }
        let m = parts.risk_profiles.len();
        let mut k: usize = 0;
        while k < m
            invariant
                m == parts.risk_profiles@.len(),
                0 <= k <= m,
                forall|j: int|
                    0 <= j < k ==> 0 <= #[trigger] parts.risk_profiles@[j].1.risk_bps <= 10000 && parts.risk_profiles@[j].1.id
                        == parts.risk_profiles@[j].0,
            decreases m - k,
        {
            let (id, ref profile) = parts.risk_profiles[k];
            if profile.risk_bps < 0 || profile.risk_bps > BPS_DIVISOR || profile.id != id {
                proof {
                    if keys_distinct(parts.risk_profiles@) {
                        crate::table::lemma_find_at(parts.risk_profiles@, k as int);
                        let key = parts.risk_profiles@[k as int].0;
                        assert(entries_map(parts.risk_profiles@).dom().contains(key));
                        assert(entries_map(parts.risk_profiles@)[key] == parts.risk_profiles@[k as int].1);
                        assert(!profiles_valid(entries_map(parts.risk_profiles@)));
                    }
                }
                return None;
            }
            k = k + 1;
        }
        let ghost rp = parts.risk_profiles@;
        let underwriters = match Table::from_entries(parts.underwriters) {
            Some(t) => t,
            None => return None,
        };
        let risk_profiles = match Table::from_entries(parts.risk_profiles) {
            Some(t) => t,
            None => return None,
        };
        let policies = match Table::from_entries(parts.policies) {
            Some(t) => t,
            None => return None,
        };
        let s = PaymentInsurance {
            config: parts.config,
            reserve: parts.reserve,
            total_stakes: parts.total_stakes,
            underwriters,
            risk_profiles,
            policy_counter: parts.policy_counter,
            risk_counter: parts.risk_counter,
            policies,
        };
        proof {
            s.risk_profiles.lemma_entries();
            assert forall|id: u32| #[trigger] s.profiles_spec().dom().contains(id) implies 0
                <= s.profiles_spec()[id].risk_bps <= 10000 && s.profiles_spec()[id].id == id by {
                let j = choose|j: int| 0 <= j < rp.len() && #[trigger] rp[j].0@ == id;
                assert(s.profiles_spec()[rp[j].0@] == rp[j].1);
            }
        }
        Some(s)
    }

    /// The stored configuration.
    pub fn stored_config(&self) -> (c: &Option<InsuranceConfig>)
        ensures
            *c == self.config_spec(),
    {
        &self.config
    }

    /// The stored underwriter stakes, in storage order.
    pub fn stored_underwriters(&self) -> (v: &Vec<(Address, i128)>)
        ensures
            v@ == self.stake_entries(),
    {
        self.underwriters.as_entries()
    }

    /// The stored risk profiles, one entry per id.
    pub fn stored_profiles(&self) -> (v: &Vec<(u32, RiskProfile)>)
        requires
            self.wf(),
        ensures
            keys_distinct(v@),
            entries_map(v@) == self.profiles_spec(),
    {
        proof {
            self.risk_profiles.lemma_entries();
        }
        self.risk_profiles.as_entries()
    }

    /// The stored policies, one entry per id.
    pub fn stored_policies(&self) -> (v: &Vec<(u32, Policy)>)
        requires
            self.wf(),
        ensures
            keys_distinct(v@),
            entries_map(v@) == self.policies_spec(),
    {
        proof {
            self.policies.lemma_entries();
        }
        self.policies.as_entries()
    }

    /// The last policy id handed out and the last risk-profile id handed out.
    pub fn stored_counters(&self) -> (c: (u32, u32))
        ensures
            c == (self.policy_counter_spec(), self.risk_counter_spec()),
    {
        (self.policy_counter, self.risk_counter)
    }

    pub fn initialize(&mut self, env: &mut Env<InsuranceEvent>, admin: Address, token: Address) -> (r:
        InsuranceResult<()>)
        requires
            old(self).wf(),
        ensures
            final(self).wf(),
            final(env).same_host(*old(env)),
            final(env).transfers == old(env).transfers,
            old(self).config_spec() is Some ==> r == Err::<(), Failure<Error>>(
                Failure::Error(Error::AlreadyInitialized),
            ),
            old(self).config_spec() is None && !old(env).auth.authorizes(admin@) ==> r == Err::<
                (),
                Failure<Error>,
            >(Failure::Trap(Trap::NotAuthorized(admin))),
            old(self).config_spec() is None && old(env).auth.authorizes(admin@) ==> {
                &&& r is Ok
                &&& final(self).config_spec() == Some(InsuranceConfig { admin, token })
                &&& final(self).reserve_spec() == 0
                &&& final(self).total_stakes_spec() == 0
                &&& final(self).underwriters_spec() == Map::<Seq<char>, i128>::empty()
                &&& final(self).profiles_spec() == Map::<u32, RiskProfile>::empty()
                &&& final(self).policy_counter_spec() == 0
                &&& final(self).risk_counter_spec() == 0
                &&& final(self).policies_spec() == old(self).policies_spec()
                &&& final(env).events@ == old(env).events@.push(InsuranceEvent::Initialized { admin })
            },
            r is Err ==> *final(self) == *old(self) && *final(env) == *old(env),
    {
        if self.config.is_some() {
            return Err(Failure::Error(Error::AlreadyInitialized));
        }
        match require_auth(env, &admin) {
            Ok(()) => {},
            Err(e) => return Err(e),
        }
        let who = admin.duplicate();
        self.config = Some(InsuranceConfig { admin, token });
        self.reserve = 0;
        self.total_stakes = 0;
        self.underwriters = Table::new();
        self.risk_profiles = Table::new();
        self.policy_counter = 0;
        self.risk_counter = 0;
        proof {
            self.underwriters.lemma_entries();
        }
        env.events.push(InsuranceEvent::Initialized { admin: who });
        Ok(())
    }

    /// `underwriter` stakes `stake` tokens into the reserve.
    pub fn add_underwriter(&mut self, env: &mut Env<InsuranceEvent>, underwriter: Address, stake: i128) -> (r:
        InsuranceResult<()>)
        requires
            old(self).wf(),
        ensures
            final(self).wf(),
            final(env).same_host(*old(env)),
            stake <= 0 ==> r == Err::<(), Failure<Error>>(Failure::Error(Error::ZeroAmount)),
            stake > 0 && old(self).config_spec() is None ==> r == Err::<(), Failure<Error>>(
                Failure::Error(Error::NotInitialized),
            ),
            stake > 0 && old(self).config_spec() is Some && !old(env).auth.authorizes(underwriter@)
                ==> r == Err::<(), Failure<Error>>(Failure::Trap(Trap::NotAuthorized(underwriter))),
            stake > 0 && old(self).config_spec() is Some && old(env).auth.authorizes(underwriter@)
                ==> {
                let cur = old(self).stake_of(underwriter@);
                let fits = fits_i128(cur + stake) && fits_i128(old(self).total_stakes_spec() + stake)
                    && fits_i128(old(self).reserve_spec() + stake);
                &&& !fits ==> r == Err::<(), Failure<Error>>(Failure::Trap(Trap::Overflow))
                &&& fits ==> {
                    &&& r is Ok
                    &&& final(self).underwriters_spec() == old(self).underwriters_spec().insert(
                        underwriter@,
                        (cur + stake) as i128,
                    )
                    &&& final(self).total_stakes_spec() == old(self).total_stakes_spec() + stake
                    &&& final(self).reserve_spec() == old(self).reserve_spec() + stake
                    &&& final(self).config_spec() == old(self).config_spec()
                    &&& final(self).same_catalog(old(self))
                    &&& final(self).same_book(old(self))
                    &&& final(env).transfers@ == old(env).transfers@.push(
                        Transfer { from: underwriter, to: old(env).contract, amount: stake },
                    )
                    &&& final(env).events@ == old(env).events@.push(
                        InsuranceEvent::UnderwriterAdded { underwriter, stake },
                    )
                }
            },
            r is Err ==> *final(self) == *old(self) && *final(env) == *old(env),
    {
        if stake <= 0 {
            return Err(Failure::Error(Error::ZeroAmount));
        }
        if self.config.is_none() {
            return Err(Failure::Error(Error::NotInitialized));
        }
        match require_auth(env, &underwriter) {
            Ok(()) => {},
            Err(e) => return Err(e),
        }
        let current: i128 = match self.underwriters.get(&underwriter) {
            Some(s) => *s,
            None => 0,
        };
        let new_stake = match current.checked_add(stake) {
            Some(v) => v,
            None => return Err(Failure::Trap(Trap::Overflow)),
        };
        let new_total = match self.total_stakes.checked_add(stake) {
            Some(v) => v,
            None => return Err(Failure::Trap(Trap::Overflow)),
        };
        let new_reserve = match self.reserve.checked_add(stake) {
            Some(v) => v,
            None => return Err(Failure::Trap(Trap::Overflow)),
        };
        let ghost old_entries = self.underwriters.entry_seq();
        let ghost old_map = self.underwriters_spec();
        proof {
            self.underwriters.lemma_entries();
        }
        let who = underwriter.duplicate();
        let payer = underwriter.duplicate();
        let ghost key = underwriter@;
        self.underwriters.set(underwriter, new_stake);
        proof {
            self.underwriters.lemma_entries();
            let s = self.underwriters.entry_seq();
            if !old_map.dom().contains(key) {
                assert(s == old_entries.push((who, new_stake)));
                assert(s.drop_last() =~= old_entries);
                assert forall|j: int| 0 <= j < s.len() implies #[trigger] s[j].1 > 0 by {
                    if j < old_entries.len() {
                        assert(s[j] == old_entries[j]);
                    }
                }
            } else {
                let i = choose|i: int|
                    0 <= i < old_entries.len() && #[trigger] old_entries[i].0@ == key
                        && s == old_entries.update(i, (who, new_stake));
                lemma_stake_total_update(old_entries, i, (who, new_stake));
                lemma_find_stake(old_entries, i);
                assert forall|j: int| 0 <= j < s.len() implies #[trigger] s[j].1 > 0 by {
                    if j != i {
                        assert(s[j] == old_entries[j]);
                    }
                }
            }
        }
        self.total_stakes = new_total;
        self.reserve = new_reserve;
        let to = env.contract.duplicate();
        env.transfers.push(Transfer { from: payer, to, amount: stake });
        env.events.push(InsuranceEvent::UnderwriterAdded { underwriter: who, stake });
        Ok(())
    }

    /// `underwriter` leaves the pool and is paid what its stake is still worth.
    pub fn remove_underwriter(&mut self, env: &mut Env<InsuranceEvent>, underwriter: Address) -> (r:
        InsuranceResult<i128>)
        requires
            old(self).wf(),
        ensures
            final(self).wf(),
            final(env).same_host(*old(env)),
            old(self).config_spec() is None ==> r == Err::<i128, Failure<Error>>(
                Failure::Error(Error::NotInitialized),
            ),
            old(self).config_spec() is Some && !old(env).auth.authorizes(underwriter@) ==> r == Err::<
                i128,
                Failure<Error>,
            >(Failure::Trap(Trap::NotAuthorized(underwriter))),
            old(self).config_spec() is Some && old(env).auth.authorizes(underwriter@)
                && !old(self).underwriters_spec().dom().contains(underwriter@) ==> r == Err::<
                i128,
                Failure<Error>,
            >(Failure::Error(Error::NotUnderwriter)),
            old(self).config_spec() is Some && old(env).auth.authorizes(underwriter@)
                && old(self).underwriters_spec().dom().contains(underwriter@) ==> {
                let stake = old(self).underwriters_spec()[underwriter@] as int;
                let reserve = old(self).reserve_spec() as int;
                let total = old(self).total_stakes_spec() as int;
                let scaled = total != 0 && reserve < total;
                let w = withdrawable_for(stake, reserve, total);
                &&& scaled && !fits_i128(stake * reserve) ==> r == Err::<i128, Failure<Error>>(
                    Failure::Trap(Trap::Overflow),
                )
                &&& !(scaled && !fits_i128(stake * reserve)) ==> {
                    &&& r == Ok::<i128, Failure<Error>>(w as i128)
                    &&& 0 <= w <= stake
                    &&& w <= reserve
                    &&& final(self).underwriters_spec() == old(self).underwriters_spec().remove(
                        underwriter@,
                    )
                    &&& final(self).total_stakes_spec() == total - stake
                    &&& final(self).reserve_spec() == reserve - w
                    &&& final(self).config_spec() == old(self).config_spec()
                    &&& final(self).same_catalog(old(self))
                    &&& final(self).same_book(old(self))
                    &&& w > 0 ==> final(env).transfers@ == old(env).transfers@.push(
                        Transfer { from: old(env).contract, to: underwriter, amount: w as i128 },
                    )
                    &&& w <= 0 ==> final(env).transfers == old(env).transfers
                    &&& final(env).events@ == old(env).events@.push(
                        InsuranceEvent::UnderwriterRemoved { underwriter, withdrawn: w as i128 },
                    )
                }
            },
            r is Err ==> *final(self) == *old(self) && *final(env) == *old(env),
    {
        if self.config.is_none() {
            return Err(Failure::Error(Error::NotInitialized));
        }
        match require_auth(env, &underwriter) {
            Ok(()) => {},
            Err(e) => return Err(e),
        }
        let stake: i128 = match self.underwriters.get(&underwriter) {
            Some(s) => *s,
            None => return Err(Failure::Error(Error::NotUnderwriter)),
        };
        let total = self.total_stakes;
        let reserve = self.reserve;
        proof {
            self.lemma_stake_facts(underwriter@);
        }
        let withdrawable: i128 = if total == 0 {
            0
        } else if reserve >= total {
            stake
        } else {
            match stake.checked_mul(reserve) {
                Some(p) => {
                    proof {
                        lemma_withdrawable_bounds(stake as int, reserve as int, total as int);
                    }
                    p / total
                },
                None => return Err(Failure::Trap(Trap::Overflow)),
            }
        };
        let ghost old_entries = self.underwriters.entry_seq();
        let ghost key = underwriter@;
        proof {
            self.underwriters.lemma_entries();
        }
        let _ = self.underwriters.remove(&underwriter);
        proof {
            self.underwriters.lemma_entries();
            let s = self.underwriters.entry_seq();
            let i = choose|i: int|
                0 <= i < old_entries.len() && #[trigger] old_entries[i].0@ == key && s
                    == old_entries.remove(i);
            lemma_stake_total_remove(old_entries, i);
            lemma_find_stake(old_entries, i);
            assert forall|j: int| 0 <= j < s.len() implies #[trigger] s[j].1 > 0 by {
                if j < i {
                    assert(s[j] == old_entries[j]);
                } else {
                    assert(s[j] == old_entries[j + 1]);
                }
            }
        }
        self.total_stakes = total - stake;
        self.reserve = reserve - withdrawable;
        if withdrawable > 0 {
            let from = env.contract.duplicate();
            let to = underwriter.duplicate();
            env.transfers.push(Transfer { from, to, amount: withdrawable });
        }
        env.events.push(InsuranceEvent::UnderwriterRemoved { underwriter, withdrawn: withdrawable });
        Ok(withdrawable)
    }

    /// Register a risk profile; the admin and underwriters may do so.
    pub fn create_risk_profile(
        &mut self,
        env: &mut Env<InsuranceEvent>,
        admin_or_underwriter: Address,
        name: String,
        risk_bps: i128,
    ) -> (r: InsuranceResult<u32>)
        requires
            old(self).wf(),
        ensures
            final(self).wf(),
            final(env).same_host(*old(env)),
            final(env).transfers == old(env).transfers,
            old(self).config_spec() is None ==> r == Err::<u32, Failure<Error>>(
                Failure::Error(Error::NotInitialized),
            ),
            old(self).config_spec() is Some && !old(env).auth.authorizes(admin_or_underwriter@) ==> r
                == Err::<u32, Failure<Error>>(Failure::Trap(Trap::NotAuthorized(admin_or_underwriter))),
            old(self).config_spec() is Some && old(env).auth.authorizes(admin_or_underwriter@) ==> {
                let id = old(self).risk_counter_spec() + 1;
                &&& !old(self).may_manage(admin_or_underwriter@) ==> r == Err::<u32, Failure<Error>>(
                    Failure::Error(Error::Unauthorized),
                )
                &&& old(self).may_manage(admin_or_underwriter@) && (risk_bps < 0 || risk_bps > 10000)
                    ==> r == Err::<u32, Failure<Error>>(Failure::Error(Error::InvalidBps))
                &&& old(self).may_manage(admin_or_underwriter@) && 0 <= risk_bps <= 10000 && id
                    > u32::MAX ==> r == Err::<u32, Failure<Error>>(Failure::Trap(Trap::Overflow))
                &&& old(self).may_manage(admin_or_underwriter@) && 0 <= risk_bps <= 10000 && id
                    <= u32::MAX ==> {
                    &&& r == Ok::<u32, Failure<Error>>(id as u32)
                    &&& final(self).risk_counter_spec() == id
                    &&& final(self).profiles_spec() == old(self).profiles_spec().insert(
                        id as u32,
                        RiskProfile { id: id as u32, name, risk_bps, active: true },
                    )
                    &&& final(self).config_spec() == old(self).config_spec()
                    &&& final(self).same_pool(old(self))
                    &&& final(self).same_book(old(self))
                    &&& final(env).events@ == old(env).events@.push(
                        InsuranceEvent::RiskProfileCreated { id: id as u32, risk_bps },
                    )
                }
            },
            r is Err ==> *final(self) == *old(self) && *final(env) == *old(env),
    {
        match &self.config {
            None => return Err(Failure::Error(Error::NotInitialized)),
            Some(c) => {
                match require_auth(env, &admin_or_underwriter) {
                    Ok(()) => {},
                    Err(e) => return Err(e),
                }
                let authorized = c.admin.same(&admin_or_underwriter) || self.underwriters.contains(
                    &admin_or_underwriter,
                );
                if !authorized {
                    return Err(Failure::Error(Error::Unauthorized));
                }
            },
        }
        if risk_bps < 0 || risk_bps > BPS_DIVISOR {
            return Err(Failure::Error(Error::InvalidBps));
        }
        let counter = match self.risk_counter.checked_add(1) {
            Some(c) => c,
            None => return Err(Failure::Trap(Trap::Overflow)),
        };
        let ghost before = self.profiles_spec();
        self.risk_counter = counter;
        self.risk_profiles.set(counter, RiskProfile { id: counter, name, risk_bps, active: true });
        proof {
            assert forall|id: u32| #[trigger] self.profiles_spec().dom().contains(id) implies 0
                <= self.profiles_spec()[id].risk_bps <= 10000 && self.profiles_spec()[id].id == id by {
                if id != counter {
                    assert(before.dom().contains(id));
                }
            }
        }
        env.events.push(InsuranceEvent::RiskProfileCreated { id: counter, risk_bps });
        Ok(counter)
    }

    /// Switch a risk profile on or off; the admin and underwriters may do so.
    pub fn toggle_risk_profile(
        &mut self,
        env: &mut Env<InsuranceEvent>,
        admin_or_underwriter: Address,
        id: u32,
        active: bool,
    ) -> (r: InsuranceResult<()>)
        requires
            old(self).wf(),
        ensures
            final(self).wf(),
            final(env).same_host(*old(env)),
            final(env).transfers == old(env).transfers,
            old(self).config_spec() is None ==> r == Err::<(), Failure<Error>>(
                Failure::Error(Error::NotInitialized),
            ),
            old(self).config_spec() is Some && !old(env).auth.authorizes(admin_or_underwriter@) ==> r
                == Err::<(), Failure<Error>>(Failure::Trap(Trap::NotAuthorized(admin_or_underwriter))),
            old(self).config_spec() is Some && old(env).auth.authorizes(admin_or_underwriter@) ==> {
                &&& !old(self).may_manage(admin_or_underwriter@) ==> r == Err::<(), Failure<Error>>(
                    Failure::Error(Error::Unauthorized),
                )
                &&& old(self).may_manage(admin_or_underwriter@) && !old(self).profiles_spec().dom().contains(
                    id,
                ) ==> r == Err::<(), Failure<Error>>(Failure::Error(Error::RiskProfileNotFound))
                &&& old(self).may_manage(admin_or_underwriter@) && old(self).profiles_spec().dom().contains(
                    id,
                ) ==> {
                    &&& r is Ok
                    &&& final(self).profiles_spec() == old(self).profiles_spec().insert(
                        id,
                        RiskProfile { active, ..old(self).profiles_spec()[id] },
                    )
                    &&& final(self).risk_counter_spec() == old(self).risk_counter_spec()
                    &&& final(self).config_spec() == old(self).config_spec()
                    &&& final(self).same_pool(old(self))
                    &&& final(self).same_book(old(self))
                    &&& final(env).events@ == old(env).events@.push(
                        InsuranceEvent::RiskProfileToggled { id, active },
                    )
                }
            },
            r is Err ==> *final(self) == *old(self) && *final(env) == *old(env),
    {
        match &self.config {
            None => return Err(Failure::Error(Error::NotInitialized)),
            Some(c) => {
                match require_auth(env, &admin_or_underwriter) {
                    Ok(()) => {},
                    Err(e) => return Err(e),
                }
                let authorized = c.admin.same(&admin_or_underwriter) || self.underwriters.contains(
                    &admin_or_underwriter,
                );
                if !authorized {
                    return Err(Failure::Error(Error::Unauthorized));
                }
            },
        }
        let mut profile = match self.risk_profiles.get(&id) {
            Some(p) => p.duplicate(),
            None => return Err(Failure::Error(Error::RiskProfileNotFound)),
        };
        profile.active = active;
        let ghost before = self.profiles_spec();
        self.risk_profiles.set(id, profile);
        proof {
            assert forall|k: u32| #[trigger] self.profiles_spec().dom().contains(k) implies 0
                <= self.profiles_spec()[k].risk_bps <= 10000 && self.profiles_spec()[k].id == k by {
                assert(before.dom().contains(k));
            }
        }
        env.events.push(InsuranceEvent::RiskProfileToggled { id, active });
        Ok(())
    }

    /// `coverage_amount * risk_bps / 10 000` for an active profile.
    pub fn calculate_premium(&self, coverage_amount: i128, risk_profile_id: u32) -> (r:
        InsuranceResult<i128>)
        requires
            self.wf(),
        ensures
            !self.profiles_spec().dom().contains(risk_profile_id) ==> r == Err::<i128, Failure<Error>>(
                Failure::Error(Error::RiskProfileNotFound),
            ),
            self.profiles_spec().dom().contains(risk_profile_id) ==> {
                let p = self.profiles_spec()[risk_profile_id];
                &&& !p.active ==> r == Err::<i128, Failure<Error>>(
                    Failure::Error(Error::RiskProfileInactive),
                )
                &&& p.active && !fits_i128(coverage_amount * p.risk_bps) ==> r == Err::<
                    i128,
                    Failure<Error>,
                >(Failure::Trap(Trap::Overflow))
                &&& p.active && fits_i128(coverage_amount * p.risk_bps) ==> r == Ok::<
                    i128,
                    Failure<Error>,
                >(premium_for(coverage_amount as int, p.risk_bps as int) as i128)
            },
    {
        let (bps, active) = match self.risk_profiles.get(&risk_profile_id) {
            Some(p) => (p.risk_bps, p.active),
            None => return Err(Failure::Error(Error::RiskProfileNotFound)),
        };
        if !active {
            return Err(Failure::Error(Error::RiskProfileInactive));
        }
        let product = match coverage_amount.checked_mul(bps) {
            Some(p) => p,
            None => return Err(Failure::Trap(Trap::Overflow)),
        };
        match product.checked_div(BPS_DIVISOR) {
            Some(q) => Ok(q),
            None => Err(Failure::Trap(Trap::Overflow)),
        }
    }

    /// `holder` buys cover of `coverage_amount` under a risk profile. The premium
    /// is paid to the contract; 10 % goes on to the admin as the protocol fee
    /// and the rest into the reserve.
    pub fn buy_policy(
        &mut self,
        env: &mut Env<InsuranceEvent>,
        holder: Address,
        coverage_amount: i128,
        risk_profile_id: u32,
    ) -> (r: InsuranceResult<u32>)
        requires
            old(self).wf(),
        ensures
            final(self).wf(),
            final(env).same_host(*old(env)),
            coverage_amount <= 0 ==> r == Err::<u32, Failure<Error>>(Failure::Error(Error::ZeroAmount)),
            coverage_amount > 0 && !old(env).auth.authorizes(holder@) ==> r == Err::<u32, Failure<Error>>(
                Failure::Trap(Trap::NotAuthorized(holder)),
            ),
            coverage_amount > 0 && old(env).auth.authorizes(holder@) && !old(self).profiles_spec().dom().contains(
                risk_profile_id,
            ) ==> r == Err::<u32, Failure<Error>>(Failure::Error(Error::RiskProfileNotFound)),
            coverage_amount > 0 && old(env).auth.authorizes(holder@) && old(self).profiles_spec().dom().contains(
                risk_profile_id,
            ) ==> {
                let p = old(self).profiles_spec()[risk_profile_id];
                let premium = premium_for(coverage_amount as int, p.risk_bps as int);
                let fee = protocol_fee(premium);
                let share = premium - fee;
                let id = old(self).policy_counter_spec() + 1;
                let ok = fits_i128(premium * 10) && fits_i128(old(self).reserve_spec() + share) && id
                    <= u32::MAX;
                &&& !p.active ==> r == Err::<u32, Failure<Error>>(
                    Failure::Error(Error::RiskProfileInactive),
                )
                &&& p.active && !fits_i128(coverage_amount * p.risk_bps) ==> r == Err::<u32, Failure<Error>>(
                    Failure::Trap(Trap::Overflow),
                )
                &&& p.active && fits_i128(coverage_amount * p.risk_bps) && old(self).config_spec() is None
                    ==> r == Err::<u32, Failure<Error>>(Failure::Trap(Trap::MissingEntry))
                &&& p.active && fits_i128(coverage_amount * p.risk_bps) && old(self).config_spec() is Some
                    && !ok ==> r == Err::<u32, Failure<Error>>(Failure::Trap(Trap::Overflow))
                &&& old(self).config_spec() matches Some(c) ==> (p.active && fits_i128(coverage_amount * p.risk_bps) && ok
                    ==> {
                    &&& r == Ok::<u32, Failure<Error>>(id as u32)
                    &&& 0 <= fee <= premium
                    &&& final(self).policy_counter_spec() == id
                    &&& final(self).policies_spec().dom() == old(self).policies_spec().dom().insert(id as u32)
                    &&& forall|k: u32| k != id && #[trigger] old(self).policies_spec().dom().contains(k)
                        ==> final(self).policies_spec()[k] == old(self).policies_spec()[k]
                    &&& final(self).policies_spec()[id as u32].holder == holder
                    &&& final(self).policies_spec()[id as u32].coverage_amount == coverage_amount
                    &&& final(self).policies_spec()[id as u32].premium_paid == premium
                    &&& final(self).policies_spec()[id as u32].active
                    &&& final(self).policies_spec()[id as u32].claim_status == PolicyStatus::Active
                    &&& final(self).policies_spec()[id as u32].risk_profile_id == risk_profile_id
                    &&& final(self).policies_spec()[id as u32].evidence_hash@ == Seq::<char>::empty()
                    &&& final(self).reserve_spec() == old(self).reserve_spec() + share
                    &&& final(self).total_stakes_spec() == old(self).total_stakes_spec()
                    &&& final(self).underwriters_spec() == old(self).underwriters_spec()
                    &&& final(self).stake_entries() == old(self).stake_entries()
                    &&& final(self).config_spec() == old(self).config_spec()
                    &&& final(self).same_catalog(old(self))
                    &&& fee > 0 ==> final(env).transfers@ == old(env).transfers@.push(
                        Transfer { from: holder, to: old(env).contract, amount: premium as i128 },
                    ).push(Transfer { from: old(env).contract, to: c.admin, amount: fee as i128 })
                    &&& fee <= 0 ==> final(env).transfers@ == old(env).transfers@.push(
                        Transfer { from: holder, to: old(env).contract, amount: premium as i128 },
                    )
                    &&& final(env).events@ == old(env).events@.push(
                        InsuranceEvent::PolicyBought { policy_id: id as u32, premium: premium as i128 },
                    )
                })
            },
            r is Err ==> *final(self) == *old(self) && *final(env) == *old(env),
    {
        if coverage_amount <= 0 {
            return Err(Failure::Error(Error::ZeroAmount));
        }
        match require_auth(env, &holder) {
            Ok(()) => {},
            Err(e) => return Err(e),
        }
        let premium = match self.calculate_premium(coverage_amount, risk_profile_id) {
            Ok(p) => p,
            Err(e) => return Err(e),
        };
        let admin = match &self.config {
            Some(c) => c.admin.duplicate(),
            None => return Err(Failure::Trap(Trap::MissingEntry)),
        };
        proof {
            let p = self.profiles_spec()[risk_profile_id];
            assert(0 <= p.risk_bps <= 10000);
            assert(coverage_amount * p.risk_bps >= 0) by (nonlinear_arith)
                requires
                    coverage_amount > 0,
                    p.risk_bps >= 0,
            ;
            assert(coverage_amount * p.risk_bps <= coverage_amount * 10000) by (nonlinear_arith)
                requires
                    coverage_amount > 0,
                    p.risk_bps <= 10000,
            ;
        }
        let scaled = match premium.checked_mul(10) {
            Some(v) => v,
            None => return Err(Failure::Trap(Trap::Overflow)),
        };
        let fee = scaled / 100;
        let reserve_share = premium - fee;
        let new_reserve = match self.reserve.checked_add(reserve_share) {
            Some(v) => v,
            None => return Err(Failure::Trap(Trap::Overflow)),
        };
        let counter = match self.policy_counter.checked_add(1) {
            Some(c) => c,
            None => return Err(Failure::Trap(Trap::Overflow)),
        };
        let payer = holder.duplicate();
        let contract = env.contract.duplicate();
        env.transfers.push(Transfer { from: payer, to: contract, amount: premium });
        if fee > 0 {
            let from = env.contract.duplicate();
            env.transfers.push(Transfer { from, to: admin, amount: fee });
        }
        self.reserve = new_reserve;
        self.policy_counter = counter;
        let policy = Policy {
            holder,
            coverage_amount,
            premium_paid: premium,
            active: true,
            claim_status: PolicyStatus::Active,
            risk_profile_id,
            evidence_hash: String::new(),
        };
        let ghost before = self.policies_spec();
        self.policies.set(counter, policy);
        proof {
            assert(self.policies_spec().dom() =~= before.dom().insert(counter));
        }
        env.events.push(InsuranceEvent::PolicyBought { policy_id: counter, premium });
        Ok(counter)
    }

    /// The holder files a claim on an active policy, with evidence.
    pub fn submit_claim(&mut self, env: &mut Env<InsuranceEvent>, policy_id: u32, evidence_hash: String) -> (r:
        InsuranceResult<()>)
        requires
            old(self).wf(),
        ensures
            final(self).wf(),
            final(env).same_host(*old(env)),
            final(env).transfers == old(env).transfers,
            !old(self).policies_spec().dom().contains(policy_id) ==> r == Err::<(), Failure<Error>>(
                Failure::Error(Error::PolicyNotFound),
            ),
            old(self).policies_spec().dom().contains(policy_id) ==> {
                let p = old(self).policies_spec()[policy_id];
                &&& !claim_open(p) ==> r == Err::<(), Failure<Error>>(
                    Failure::Error(Error::AlreadyProcessed),
                )
                &&& claim_open(p) && !old(env).auth.authorizes(p.holder@) ==> r == Err::<(), Failure<Error>>(
                    Failure::Trap(Trap::NotAuthorized(p.holder)),
                )
                &&& claim_open(p) && old(env).auth.authorizes(p.holder@) ==> {
                    &&& r is Ok
                    &&& final(self).policies_spec() == old(self).policies_spec().insert(
                        policy_id,
                        Policy { claim_status: PolicyStatus::ClaimPending, evidence_hash, ..p },
                    )
                    &&& final(self).policy_counter_spec() == old(self).policy_counter_spec()
                    &&& final(self).config_spec() == old(self).config_spec()
                    &&& final(self).same_pool(old(self))
                    &&& final(self).same_catalog(old(self))
                    &&& final(env).events@ == old(env).events@.push(
                        InsuranceEvent::ClaimSubmitted { policy_id },
                    )
                }
            },
            r is Err ==> *final(self) == *old(self) && *final(env) == *old(env),
    {
        let mut policy = match self.policies.get(&policy_id) {
            Some(p) => p.duplicate(),
            None => return Err(Failure::Error(Error::PolicyNotFound)),
        };
        if !policy.active {
            return Err(Failure::Error(Error::AlreadyProcessed));
        }
        match policy.claim_status {
            PolicyStatus::Active => {},
            _ => return Err(Failure::Error(Error::AlreadyProcessed)),
        }
        match require_auth(env, &policy.holder) {
            Ok(()) => {},
            Err(e) => return Err(e),
        }
        policy.claim_status = PolicyStatus::ClaimPending;
        policy.evidence_hash = evidence_hash;
        self.policies.set(policy_id, policy);
        env.events.push(InsuranceEvent::ClaimSubmitted { policy_id });
        Ok(())
    }

    /// The admin decides a pending claim: approval pays `payout_amount` from
    /// the reserve to the holder and closes the policy; denial keeps it open.
    pub fn process_claim(
        &mut self,
        env: &mut Env<InsuranceEvent>,
        policy_id: u32,
        approve: bool,
        payout_amount: i128,
    ) -> (r: InsuranceResult<()>)
        requires
            old(self).wf(),
        ensures
            final(self).wf(),
            final(env).same_host(*old(env)),
            old(self).config_spec() is None ==> r == Err::<(), Failure<Error>>(
                Failure::Trap(Trap::MissingEntry),
            ),
            old(self).config_spec() matches Some(c) ==> {
                let reserve = old(self).reserve_spec();
                &&& !old(env).auth.authorizes(c.admin@) ==> r == Err::<(), Failure<Error>>(
                    Failure::Trap(Trap::NotAuthorized(c.admin)),
                )
                &&& old(env).auth.authorizes(c.admin@) && !old(self).policies_spec().dom().contains(policy_id)
                    ==> r == Err::<(), Failure<Error>>(Failure::Error(Error::PolicyNotFound))
                &&& old(env).auth.authorizes(c.admin@) && old(self).policies_spec().dom().contains(policy_id)
                    ==> {
                    let p = old(self).policies_spec()[policy_id];
                    let pending = claim_pending(p);
                    let valid = 0 < payout_amount <= p.coverage_amount;
                    &&& !pending ==> r == Err::<(), Failure<Error>>(Failure::Error(Error::AlreadyProcessed))
                    &&& pending && !valid ==> r == Err::<(), Failure<Error>>(Failure::Error(Error::ZeroAmount))
                    &&& pending && valid && approve && reserve < payout_amount ==> r == Err::<
                        (),
                        Failure<Error>,
                    >(Failure::Error(Error::InsufficientReserve))
                    &&& pending && valid && approve && reserve >= payout_amount ==> {
                        &&& r is Ok
                        &&& final(self).reserve_spec() == reserve - payout_amount
                        &&& final(self).policies_spec() == old(self).policies_spec().insert(
                            policy_id,
                            Policy { active: false, claim_status: PolicyStatus::ClaimApproved, ..p },
                        )
                        &&& final(env).transfers@ == old(env).transfers@.push(
                            Transfer { from: old(env).contract, to: p.holder, amount: payout_amount },
                        )
                        &&& final(env).events@ == old(env).events@.push(
                            InsuranceEvent::ClaimApproved { policy_id },
                        )
                    }
                    &&& pending && valid && !approve ==> {
                        &&& r is Ok
                        &&& final(self).reserve_spec() == reserve
                        &&& final(self).policies_spec() == old(self).policies_spec().insert(
                            policy_id,
                            Policy { claim_status: PolicyStatus::ClaimDenied, ..p },
                        )
                        &&& final(env).transfers == old(env).transfers
                        &&& final(env).events@ == old(env).events@.push(
                            InsuranceEvent::ClaimDenied { policy_id },
                        )
                    }
                }
            },
            r is Ok ==> {
                &&& final(self).policy_counter_spec() == old(self).policy_counter_spec()
                &&& final(self).total_stakes_spec() == old(self).total_stakes_spec()
                &&& final(self).underwriters_spec() == old(self).underwriters_spec()
                &&& final(self).config_spec() == old(self).config_spec()
                &&& final(self).same_catalog(old(self))
            },
            r is Err ==> *final(self) == *old(self) && *final(env) == *old(env),
    {
        let admin = match &self.config {
            Some(c) => c.admin.duplicate(),
            None => return Err(Failure::Trap(Trap::MissingEntry)),
        };
        match require_auth(env, &admin) {
            Ok(()) => {},
            Err(e) => return Err(e),
        }
        let mut policy = match self.policies.get(&policy_id) {
            Some(p) => p.duplicate(),
            None => return Err(Failure::Error(Error::PolicyNotFound)),
        };
        if !policy.active {
            return Err(Failure::Error(Error::AlreadyProcessed));
        }
        match policy.claim_status {
            PolicyStatus::ClaimPending => {},
            _ => return Err(Failure::Error(Error::AlreadyProcessed)),
        }
        if payout_amount <= 0 || payout_amount > policy.coverage_amount {
            return Err(Failure::Error(Error::ZeroAmount));
        }
        if approve {
            if self.reserve < payout_amount {
                return Err(Failure::Error(Error::InsufficientReserve));
            }
            let from = env.contract.duplicate();
            let to = policy.holder.duplicate();
            env.transfers.push(Transfer { from, to, amount: payout_amount });
            self.reserve = self.reserve - payout_amount;
            policy.active = false;
            policy.claim_status = PolicyStatus::ClaimApproved;
            env.events.push(InsuranceEvent::ClaimApproved { policy_id });
        } else {
            policy.claim_status = PolicyStatus::ClaimDenied;
            env.events.push(InsuranceEvent::ClaimDenied { policy_id });
        }
        self.policies.set(policy_id, policy);
        Ok(())
    }

    pub fn get_policy(&self, policy_id: u32) -> (r: InsuranceResult<Policy>)
        requires
            self.wf(),
        ensures
            self.policies_spec().dom().contains(policy_id) ==> r == Ok::<Policy, Failure<Error>>(
                self.policies_spec()[policy_id],
            ),
            !self.policies_spec().dom().contains(policy_id) ==> r == Err::<Policy, Failure<Error>>(
                Failure::Error(Error::PolicyNotFound),
            ),
    {
        match self.policies.get(&policy_id) {
            Some(p) => Ok(p.duplicate()),
            None => Err(Failure::Error(Error::PolicyNotFound)),
        }
    }

    pub fn get_reserve(&self) -> (r: i128)
        ensures
            r == self.reserve_spec(),
    {
        self.reserve
    }

    pub fn get_total_stakes(&self) -> (r: i128)
        ensures
            r == self.total_stakes_spec(),
    {
        self.total_stakes
    }

    /// The underwriters and their stakes, in storage order.
    pub fn get_underwriters(&self) -> (r: Vec<(Address, i128)>)
        requires
            self.wf(),
        ensures
            r@ == self.stake_entries(),
            keys_distinct(r@),
            entries_map(r@) == self.underwriters_spec(),
    {
        let mut out: Vec<(Address, i128)> = Vec::new();
        let n = self.underwriters.len();
        let mut i: usize = 0;
        while i < n
            invariant
                n == self.stake_entries().len(),
                0 <= i <= n,
                out@ == self.stake_entries().subrange(0, i as int),
            decreases n - i,
        {
            let e = self.underwriters.entry_at(i);
            out.push((e.0.duplicate(), e.1));
            i = i + 1;
            assert(out@ =~= self.stake_entries().subrange(0, i as int));
        }
        assert(out@ =~= self.stake_entries());
        out
    }

    pub fn get_risk_profile(&self, id: u32) -> (r: InsuranceResult<RiskProfile>)
        requires
            self.wf(),
        ensures
            self.profiles_spec().dom().contains(id) ==> r == Ok::<RiskProfile, Failure<Error>>(
                self.profiles_spec()[id],
            ),
            !self.profiles_spec().dom().contains(id) ==> r == Err::<RiskProfile, Failure<Error>>(
                Failure::Error(Error::RiskProfileNotFound),
            ),
    {
        match self.risk_profiles.get(&id) {
            Some(p) => Ok(p.duplicate()),
            None => Err(Failure::Error(Error::RiskProfileNotFound)),
        }
    }
}

proof fn lemma_find_stake(s: Seq<(Address, i128)>, i: int)
    requires
        keys_distinct(s),
        0 <= i < s.len(),
    ensures
        entries_map(s).dom().contains(s[i].0@),
        entries_map(s)[s[i].0@] == s[i].1,
{
    crate::table::lemma_find_at(s, i);
}

} // verus!
