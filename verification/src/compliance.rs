//! Compliance screening: velocity limits, transaction risk scoring, pattern
//! indicators and case-management gating.
use crate::api_error::ApiError;
use crate::text::{contains, contains_text, signed_decimal};
use vstd::prelude::*;

verus! {

/// Risk levels, from least to most severe.
#[derive(Debug, Clone, Copy, PartialEq, Eq, Structural)]
pub enum RiskLevel {
    Low,
    Medium,
    High,
    Blocked,
}

impl RiskLevel {
    /// The level's stored name.
    pub fn as_str(&self) -> (s: &'static str)
        ensures
            *self == RiskLevel::Low ==> s@ == "low"@,
            *self == RiskLevel::Medium ==> s@ == "medium"@,
            *self == RiskLevel::High ==> s@ == "high"@,
            *self == RiskLevel::Blocked ==> s@ == "blocked"@,
    {
        match self {
            RiskLevel::Low => "low",
            RiskLevel::Medium => "medium",
            RiskLevel::High => "high",
            RiskLevel::Blocked => "blocked",
        }
    }
}

/// Per-user transaction limits.
#[derive(Debug, Clone, Copy, PartialEq, Eq, Structural)]
pub struct VelocityLimits {
    pub max_transaction_amount: u64,
    pub daily_transaction_limit: u64,
    pub monthly_transaction_limit: u64,
}

/// Amount thresholds and address patterns that raise the risk score.
#[derive(Debug, Clone)]
pub struct RiskThresholds {
    pub high_risk_amount: u64,
    pub medium_risk_amount: u64,
    pub suspicious_patterns: Vec<String>,
}

/// What the sanctions provider reports for an address.
#[derive(Debug, Clone)]
pub struct SanctionsScreening {
    pub sanctioned: bool,
    pub risk_score: Option<u8>,
    pub reasons: Vec<String>,
}

/// The scored outcome of screening one transaction.
#[derive(Debug, Clone)]
pub struct RiskScore {
    pub risk_score: u8,
    pub risk_level: RiskLevel,
    pub reasons: Vec<String>,
}

/// A suspicious-pattern finding about a user.
#[derive(Debug, Clone)]
pub struct IndicatorFinding {
    pub indicator_type: String,
    pub severity: String,
    pub description: String,
}

/// An `i64` amount read as `u64` (two's complement: negative amounts read as huge).
pub open spec fn as_unsigned(a: i64) -> int {
    if a < 0 {
        a + 0x1_0000_0000_0000_0000
    } else {
        a as int
    }
}

/// `a.saturating_add(b)` for `i64`.
pub open spec fn saturating_sum(a: i64, b: i64) -> int {
    if a + b > i64::MAX {
        i64::MAX as int
    } else if a + b < i64::MIN {
        i64::MIN as int
    } else {
        a + b
    }
}

/// Saturating addition keeps the exact sum whenever it fits in `i64` and
/// otherwise stops at the nearer bound; it never leaves the `i64` range.
pub proof fn lemma_saturating_sum(a: i64, b: i64)
    ensures
        i64::MIN <= saturating_sum(a, b) <= i64::MAX,
        i64::MIN <= a + b <= i64::MAX ==> saturating_sum(a, b) == a + b,
        a + b > i64::MAX ==> saturating_sum(a, b) == i64::MAX,
        a + b < i64::MIN ==> saturating_sum(a, b) == i64::MIN,
{
}

pub open spec fn max_int(a: int, b: int) -> int {
    if a >= b {
        a
    } else {
        b
    }
}

/// The patterns, in order, that are non-empty and occur in the address.
pub open spec fn pattern_hits(patterns: Seq<Seq<char>>, address: Seq<char>) -> Seq<Seq<char>>
    decreases patterns.len(),
{
    if patterns.len() == 0 {
        seq![]
    } else {
        let rest = pattern_hits(patterns.drop_last(), address);
        let p = patterns.last();
        if p.len() > 0 && contains_text(address, p) {
            rest.push(p)
        } else {
            rest
        }
    }
}

/// The amount reason, if the amount reaches a threshold.
pub open spec fn amount_reasons(amount: i64, high: u64, medium: u64) -> Seq<Seq<char>> {
    if as_unsigned(amount) >= high {
        seq!["high_value_transaction"@]
    } else if as_unsigned(amount) >= medium {
        seq!["medium_value_transaction"@]
    } else {
        seq![]
    }
}

/// The score before the pattern rule: the provider's score raised to 100 for a
/// sanctions match, to 80 / 45 for a high / medium amount, to 75 when the
/// velocity limits are exceeded.
pub open spec fn score_before_patterns(s: SanctionsScreening, velocity_ok: bool, amount: i64, high: u64, medium: u64) -> int {
    let base = match s.risk_score {
        Some(v) => v as int,
        None => 0,
    };
    let a = if s.sanctioned {
        max_int(base, 100)
    } else {
        base
    };
    let b = if as_unsigned(amount) >= high {
        max_int(a, 80)
    } else if as_unsigned(amount) >= medium {
        max_int(a, 45)
    } else {
        a
    };
    if !velocity_ok {
        max_int(b, 75)
    } else {
        b
    }
}

pub open spec fn prefixed(prefix: Seq<char>, items: Seq<Seq<char>>) -> Seq<Seq<char>> {
    items.map_values(|p: Seq<char>| prefix + p)
}

/// The level a score maps to; a sanctions match always blocks.
pub open spec fn level_for(sanctioned: bool, score: int) -> RiskLevel {
    if sanctioned {
        RiskLevel::Blocked
    } else if score >= 75 {
        RiskLevel::High
    } else if score >= 40 {
        RiskLevel::Medium
    } else {
        RiskLevel::Low
    }
}

/// Screening only ever raises risk: the score is at least the provider's; a
/// sanctions match scores at least 100 and blocks; an exceeded velocity limit
/// scores at least 75 and so is at least high risk; no level is below what
/// its score calls for.
pub proof fn lemma_score_floors(s: SanctionsScreening, velocity_ok: bool, amount: i64, high: u64, medium: u64, hit: bool)
    ensures
        ({
            let before = score_before_patterns(s, velocity_ok, amount, high, medium);
            let score = if hit {
                max_int(before, 70)
            } else {
                before
            };
            &&& s.risk_score matches Some(v) ==> score >= v
            &&& s.sanctioned ==> score >= 100 && level_for(s.sanctioned, score) == RiskLevel::Blocked
            &&& !velocity_ok ==> score >= 75 && (level_for(s.sanctioned, score) == RiskLevel::High
                || level_for(s.sanctioned, score) == RiskLevel::Blocked)
            &&& as_unsigned(amount) >= high ==> score >= 80
            &&& hit ==> score >= 70
        }),
{
}

/// The score is the highest floor that applies, and nothing more: the
/// provider's score, 100 for a sanctions match, 80 for a high amount, 45 for a
/// medium one (at least the medium threshold, below the high one), 75 when the
/// velocity limits are exceeded and 70 for a pattern hit. The score reaches
/// every floor that applies and equals one of them, so floors are never added
/// up. The level follows the score: a sanctions match blocks; otherwise 75 and
/// above is high, 40 and above medium, anything lower low.
pub proof fn lemma_score_is_highest_floor(
    s: SanctionsScreening,
    velocity_ok: bool,
    amount: i64,
    high: u64,
    medium: u64,
    hit: bool,
)
    ensures
        ({
            let before = score_before_patterns(s, velocity_ok, amount, high, medium);
            let score = if hit {
                max_int(before, 70)
            } else {
                before
            };
            let provider: int = match s.risk_score {
                Some(v) => v as int,
                None => 0,
            };
            let value: int = if amount < 0 {
                amount + 0x1_0000_0000_0000_0000
            } else {
                amount as int
            };
            let high_amount = value >= high;
            let medium_amount = value < high && value >= medium;
            &&& score >= provider
            &&& s.sanctioned ==> score >= 100
            &&& high_amount ==> score >= 80
            &&& medium_amount ==> score >= 45
            &&& !velocity_ok ==> score >= 75
            &&& hit ==> score >= 70
            &&& score == provider || (s.sanctioned && score == 100) || (high_amount && score == 80) || (
            medium_amount && score == 45) || (!velocity_ok && score == 75) || (hit && score == 70)
            &&& s.sanctioned ==> level_for(s.sanctioned, score) == RiskLevel::Blocked
            &&& !s.sanctioned && score >= 75 ==> level_for(s.sanctioned, score) == RiskLevel::High
            &&& !s.sanctioned && 40 <= score < 75 ==> level_for(s.sanctioned, score) == RiskLevel::Medium
            &&& !s.sanctioned && score < 40 ==> level_for(s.sanctioned, score) == RiskLevel::Low
        }),
{
}

fn raise(score: u8, floor: u8) -> (r: u8)
    ensures
        r == max_int(score as int, floor as int),
{
    if score >= floor {
        score
    } else {
        floor
    }
}

fn text(s: &str) -> (r: String)
    ensures
        r@ == s@,
{
    String::from_str(s)
}

/// The compliance service's decisions; the database and provider calls
/// around them belong to the host.
pub struct ComplianceService;

impl ComplianceService {
    /// A sanctions provider is configured unless its URL points at the
    /// example host or its key is the stock `api-key`.
    pub fn provider_configured(api_url: &str, api_key: &str) -> (b: bool)
        ensures
            b == !(contains_text(api_url@, "example.com"@) || api_key@ == "api-key"@),
    {
        !(contains(api_url, "example.com") || String::from_str(api_key) == String::from_str("api-key"))
    }

    /// The screening result used when no provider is configured: clear, with
    /// the reason that the provider is not configured.
    pub fn unconfigured_screening() -> (s: SanctionsScreening)
        ensures
            !s.sanctioned,
            s.risk_score is None,
            s.reasons@.len() == 1,
            s.reasons@[0]@ == "sanctions_provider_not_configured"@,
    {
        let mut reasons = Vec::new();
        reasons.push(text("sanctions_provider_not_configured"));
        SanctionsScreening { sanctioned: false, risk_score: None, reasons }
    }

    /// The check made before any history is read: the amount is not negative
    /// and not above the per-transaction maximum.
    pub fn velocity_precheck(amount: i64, limits: &VelocityLimits) -> (ok: bool)
        ensures
            ok == (amount >= 0 && amount <= limits.max_transaction_amount),
    {
        if amount < 0 {
            return false;
        }
        if amount as u64 > limits.max_transaction_amount {
            return false;
        }
        true
    }

    /// Whether a transaction of `amount` stays within the limits, given the
    /// user's totals of the last 24 hours and 30 days (sums saturate; the
    /// limits are read as `i64`).
    pub fn velocity_decision(amount: i64, limits: &VelocityLimits, daily_total: i64, monthly_total: i64) -> (ok: bool)
        ensures
            ok == (amount >= 0 && amount <= limits.max_transaction_amount && saturating_sum(daily_total, amount)
                <= (limits.daily_transaction_limit as i64) && saturating_sum(monthly_total, amount) <= (
            limits.monthly_transaction_limit as i64)),
    {
        if !Self::velocity_precheck(amount, limits) {
            return false;
        }
        let daily = Self::saturating_add(daily_total, amount);
        let monthly = Self::saturating_add(monthly_total, amount);
        daily <= limits.daily_transaction_limit as i64 && monthly <= limits.monthly_transaction_limit as i64
    }

    fn saturating_add(a: i64, b: i64) -> (r: i64)
        ensures
            r == saturating_sum(a, b),
    {
        let wide: i128 = a as i128 + b as i128;
        if wide > i64::MAX as i128 {
            i64::MAX
        } else if wide < i64::MIN as i128 {
            i64::MIN
        } else {
            wide as i64
        }
    }

    fn amount_unsigned(amount: i64) -> (r: u64)
        ensures
            r == as_unsigned(amount),
    {
        if amount < 0 {
            (amount as i128 + 0x1_0000_0000_0000_0000i128) as u64
        } else {
            amount as u64
        }
    }

    /// Score a transaction from the sanctions report, the velocity check, the
    /// thresholds, the destination address and the amount.
    pub fn score_transaction(
        sanctions: SanctionsScreening,
        velocity_ok: bool,
        thresholds: &RiskThresholds,
        address: &str,
        amount: i64,
    ) -> (r: RiskScore)
        ensures
            ({
                let pats = thresholds.suspicious_patterns@.map_values(|p: String| p@);
                let hits = pattern_hits(pats, address@);
                let before = score_before_patterns(
                    sanctions,
                    velocity_ok,
                    amount,
                    thresholds.high_risk_amount,
                    thresholds.medium_risk_amount,
                );
                let score = if hits.len() > 0 {
                    max_int(before, 70)
                } else {
                    before
                };
                let provider: int = match sanctions.risk_score {
                    Some(v) => v as int,
                    None => 0,
                };
                let value: int = if amount < 0 {
                    amount + 0x1_0000_0000_0000_0000
                } else {
                    amount as int
                };
                let high_amount = value >= thresholds.high_risk_amount;
                let medium_amount = value < thresholds.high_risk_amount && value >= thresholds.medium_risk_amount;
                &&& r.risk_score == score
                &&& r.risk_level == level_for(sanctions.sanctioned, score)
                &&& r.risk_score >= provider
                &&& sanctions.sanctioned ==> r.risk_score >= 100
                &&& high_amount ==> r.risk_score >= 80
                &&& medium_amount ==> r.risk_score >= 45
                &&& !velocity_ok ==> r.risk_score >= 75
                &&& hits.len() > 0 ==> r.risk_score >= 70
                &&& r.risk_score == provider || (sanctions.sanctioned && r.risk_score == 100) || (high_amount
                    && r.risk_score == 80) || (medium_amount && r.risk_score == 45) || (!velocity_ok
                    && r.risk_score == 75) || (hits.len() > 0 && r.risk_score == 70)
                &&& sanctions.sanctioned ==> r.risk_level == RiskLevel::Blocked
                &&& !sanctions.sanctioned && r.risk_score >= 75 ==> r.risk_level == RiskLevel::High
                &&& !sanctions.sanctioned && 40 <= r.risk_score < 75 ==> r.risk_level == RiskLevel::Medium
                &&& !sanctions.sanctioned && r.risk_score < 40 ==> r.risk_level == RiskLevel::Low
                &&& r.reasons@.map_values(|s: String| s@) == sanctions.reasons@.map_values(|s: String| s@)
                    + (if sanctions.sanctioned {
                    seq!["sanctions_match"@]
                } else {
                    seq![]
                }) + amount_reasons(amount, thresholds.high_risk_amount, thresholds.medium_risk_amount)
                    + (if !velocity_ok {
                    seq!["velocity_limit_exceeded"@]
                } else {
                    seq![]
                }) + prefixed("suspicious_pattern:"@, hits)
            }),
    {
        let ghost sanctions0 = sanctions;
        let mut risk_score: u8 = match sanctions.risk_score {
            Some(v) => v,
            None => 0,
        };
        let sanctioned = sanctions.sanctioned;
        let mut reasons = sanctions.reasons;
        let ghost base_reasons = reasons@.map_values(|s: String| s@);
        if sanctioned {
            risk_score = raise(risk_score, 100);
            reasons.push(text("sanctions_match"));
        }
        let value = Self::amount_unsigned(amount);
        if value >= thresholds.high_risk_amount {
            risk_score = raise(risk_score, 80);
            reasons.push(text("high_value_transaction"));
        } else if value >= thresholds.medium_risk_amount {
            risk_score = raise(risk_score, 45);
            reasons.push(text("medium_value_transaction"));
        }
        if !velocity_ok {
            risk_score = raise(risk_score, 75);
            reasons.push(text("velocity_limit_exceeded"));
        }
        let ghost fixed_reasons = reasons@.map_values(|s: String| s@);
        let ghost before = risk_score as int;
        proof {
            reveal_strlit("sanctions_match");
            reveal_strlit("high_value_transaction");
            reveal_strlit("medium_value_transaction");
            reveal_strlit("velocity_limit_exceeded");
            assert(before == score_before_patterns(
                sanctions0,
                velocity_ok,
                amount,
                thresholds.high_risk_amount,
                thresholds.medium_risk_amount,
            ));
            assert(fixed_reasons =~= base_reasons + (if sanctioned {
                seq!["sanctions_match"@]
            } else {
                seq![]
            }) + amount_reasons(amount, thresholds.high_risk_amount, thresholds.medium_risk_amount)
                + (if !velocity_ok {
                seq!["velocity_limit_exceeded"@]
            } else {
                seq![]
            }));
        }
        let ghost pats = thresholds.suspicious_patterns@.map_values(|p: String| p@);
        let n = thresholds.suspicious_patterns.len();
        let mut i: usize = 0;
        while i < n
            invariant
                n == thresholds.suspicious_patterns@.len(),
                pats == thresholds.suspicious_patterns@.map_values(|p: String| p@),
                0 <= i <= n,
                risk_score == (if pattern_hits(pats.subrange(0, i as int), address@).len() > 0 {
                    max_int(before, 70)
                } else {
                    before
                }),
                reasons@.map_values(|s: String| s@) == fixed_reasons + prefixed(
                    "suspicious_pattern:"@,
                    pattern_hits(pats.subrange(0, i as int), address@),
                ),
            decreases n - i,
        {
            let pattern = &thresholds.suspicious_patterns[i];
            let ghost prev = pattern_hits(pats.subrange(0, i as int), address@);
            proof {
                assert(pats.subrange(0, i + 1).drop_last() =~= pats.subrange(0, i as int));
                assert(pats.subrange(0, i + 1).last() == pattern@);
            }
            let ghost before_reasons = reasons@.map_values(|s: String| s@);
            if !pattern.as_str().is_empty() && contains(address, pattern.as_str()) {
                risk_score = raise(risk_score, 70);
                let mut reason = text("suspicious_pattern:");
                reason.append(pattern.as_str());
                reasons.push(reason);
                proof {
                    assert(reasons@.map_values(|s: String| s@) =~= before_reasons.push(
                        "suspicious_pattern:"@ + pattern@,
                    ));
                    assert(prefixed("suspicious_pattern:"@, prev.push(pattern@)) =~= prefixed(
                        "suspicious_pattern:"@,
                        prev,
                    ).push("suspicious_pattern:"@ + pattern@));
                }
            }
            i = i + 1;
        }
        proof {
            assert(pats.subrange(0, n as int) =~= pats);
        }
        let risk_level = if sanctioned {
            RiskLevel::Blocked
        } else if risk_score >= 75 {
            RiskLevel::High
        } else if risk_score >= 40 {
            RiskLevel::Medium
        } else {
            RiskLevel::Low
        };
        RiskScore { risk_score, risk_level, reasons }
    }

    /// The decision label recorded with a screening: blocked, flagged (high
    /// risk) or approved.
    pub fn screening_decision(level: RiskLevel) -> (d: &'static str)
        ensures
            level == RiskLevel::Blocked ==> d@ == "blocked"@,
            level == RiskLevel::High ==> d@ == "flagged"@,
            (level == RiskLevel::Medium || level == RiskLevel::Low) ==> d@ == "approved"@,
    {
        match level {
            RiskLevel::Blocked => "blocked",
            RiskLevel::High => "flagged",
            _ => "approved",
        }
    }

    /// Screenings at high risk or blocked are logged as flagged.
    pub fn needs_alert(level: RiskLevel) -> (b: bool)
        ensures
            b == (level == RiskLevel::High || level == RiskLevel::Blocked),
    {
        match level {
            RiskLevel::High | RiskLevel::Blocked => true,
            _ => false,
        }
    }

    /// Hours 9 to 17 (inclusive) count as business hours.
    pub fn is_business_hour(hour: u32) -> (b: bool)
        ensures
            b == (9 <= hour <= 17),
    {
        9 <= hour && hour <= 17
    }

    /// Structuring (more than 5 payments just below the high-risk threshold in
    /// 24 hours) and circular flows (more than 2 counterparties that both send
    /// and receive) raise high-severity findings.
    pub fn suspicious_findings(structuring_count: i64, circular_count: i64) -> (r: Vec<IndicatorFinding>)
        ensures
            r@.len() == (if structuring_count > 5 {
                1int
            } else {
                0
            }) + (if circular_count > 2 {
                1int
            } else {
                0
            }),
            structuring_count > 5 ==> {
                &&& r@[0].indicator_type@ == "structured_transaction"@
                &&& r@[0].severity@ == "high"@
                &&& r@[0].description@ == "Detected "@ + signed_decimal(structuring_count as int)
                    + " potential structuring transactions"@
            },
            circular_count > 2 ==> {
                let k = r@.len() - 1;
                &&& r@[k].indicator_type@ == "circular_flow"@
                &&& r@[k].severity@ == "high"@
                &&& r@[k].description@ == "Detected circular money flows with "@ + signed_decimal(
                    circular_count as int,
                ) + " addresses"@
            },
    {
        let mut out: Vec<IndicatorFinding> = Vec::new();
        if structuring_count > 5 {
            let mut description = text("Detected ");
            crate::text::push_signed_decimal(&mut description, structuring_count);
            description.append(" potential structuring transactions");
            out.push(
                IndicatorFinding {
                    indicator_type: text("structured_transaction"),
                    severity: text("high"),
                    description,
                },
            );
        }
        if circular_count > 2 {
            let mut description = text("Detected circular money flows with ");
            crate::text::push_signed_decimal(&mut description, circular_count);
            description.append(" addresses");
            out.push(
                IndicatorFinding {
                    indicator_type: text("circular_flow"),
                    severity: text("high"),
                    description,
                },
            );
        }
        out
    }

    /// Opening a compliance case requires case management to be enabled.
    pub fn check_case_management(enabled: bool) -> (r: Result<(), ApiError>)
        ensures
            r is Ok <==> enabled,
            r matches Err(e) ==> e matches ApiError::Compliance(m) && m@ == "Case management is disabled"@,
    {
        if !enabled {
            return Err(ApiError::Compliance(text("Case management is disabled")));
        }
        Ok(())
    }
}

} // verus!
