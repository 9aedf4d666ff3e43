use payments_core::compliance::{
    ComplianceService, RiskLevel, RiskThresholds, SanctionsScreening, VelocityLimits,
};

fn thresholds() -> RiskThresholds {
    RiskThresholds {
        high_risk_amount: 1_000_000,
        medium_risk_amount: 100_000,
        suspicious_patterns: vec!["mixer".to_string(), "".to_string(), "tumbl".to_string()],
    }
}

fn clean() -> SanctionsScreening {
    SanctionsScreening { sanctioned: false, risk_score: None, reasons: vec![] }
}

fn limits() -> VelocityLimits {
    VelocityLimits {
        max_transaction_amount: 10_000,
        daily_transaction_limit: 20_000,
        monthly_transaction_limit: 100_000,
    }
}

#[test]
fn test_velocity_precheck() {
    assert!(ComplianceService::velocity_precheck(10_000, &limits()));
    assert!(!ComplianceService::velocity_precheck(10_001, &limits()));
    assert!(!ComplianceService::velocity_precheck(-1, &limits()));
}

#[test]
fn test_velocity_decision() {
    assert!(ComplianceService::velocity_decision(5_000, &limits(), 15_000, 50_000));
    assert!(!ComplianceService::velocity_decision(5_001, &limits(), 15_000, 50_000));
    assert!(!ComplianceService::velocity_decision(5_000, &limits(), 0, 95_001));
    // Sums saturate instead of wrapping.
    assert!(!ComplianceService::velocity_decision(5_000, &limits(), i64::MAX, 0));
    assert!(ComplianceService::velocity_decision(5_000, &limits(), i64::MIN, 0));
}

#[test]
fn test_score_low_risk() {
    let r = ComplianceService::score_transaction(clean(), true, &thresholds(), "GABC", 50);
    assert_eq!(r.risk_score, 0);
    assert_eq!(r.risk_level, RiskLevel::Low);
    assert!(r.reasons.is_empty());
}

#[test]
fn test_score_sanctions_block() {
    let s = SanctionsScreening {
        sanctioned: true,
        risk_score: Some(20),
        reasons: vec!["ofac".to_string()],
    };
    let r = ComplianceService::score_transaction(s, true, &thresholds(), "GABC", 50);
    assert_eq!(r.risk_score, 100);
    assert_eq!(r.risk_level, RiskLevel::Blocked);
    assert_eq!(r.reasons, vec!["ofac".to_string(), "sanctions_match".to_string()]);
}

#[test]
fn test_score_amounts_and_velocity() {
    let r = ComplianceService::score_transaction(clean(), true, &thresholds(), "GABC", 100_000);
    assert_eq!((r.risk_score, r.risk_level), (45, RiskLevel::Medium));
    assert_eq!(r.reasons, vec!["medium_value_transaction".to_string()]);
    let r = ComplianceService::score_transaction(clean(), false, &thresholds(), "GABC", 1_000_000);
    assert_eq!((r.risk_score, r.risk_level), (80, RiskLevel::High));
    assert_eq!(
        r.reasons,
        vec!["high_value_transaction".to_string(), "velocity_limit_exceeded".to_string()]
    );
    // A negative amount reads as a huge unsigned amount.
    let r = ComplianceService::score_transaction(clean(), true, &thresholds(), "GABC", -1);
    assert_eq!(r.risk_score, 80);
}

#[test]
fn test_score_patterns() {
    let r = ComplianceService::score_transaction(clean(), true, &thresholds(), "G-mixer-tumbler", 10);
    assert_eq!((r.risk_score, r.risk_level), (70, RiskLevel::Medium));
    assert_eq!(
        r.reasons,
        vec!["suspicious_pattern:mixer".to_string(), "suspicious_pattern:tumbl".to_string()]
    );
}

#[test]
fn test_screening_labels() {
    assert_eq!(ComplianceService::screening_decision(RiskLevel::Blocked), "blocked");
    assert_eq!(ComplianceService::screening_decision(RiskLevel::High), "flagged");
    assert_eq!(ComplianceService::screening_decision(RiskLevel::Medium), "approved");
    assert!(ComplianceService::needs_alert(RiskLevel::High));
    assert!(!ComplianceService::needs_alert(RiskLevel::Medium));
    assert_eq!(RiskLevel::Blocked.as_str(), "blocked");
    assert_eq!(RiskLevel::Low.as_str(), "low");
}

#[test]
fn test_business_hours() {
    assert!(ComplianceService::is_business_hour(9));
    assert!(ComplianceService::is_business_hour(17));
    assert!(!ComplianceService::is_business_hour(8));
    assert!(!ComplianceService::is_business_hour(18));
}

#[test]
fn test_suspicious_findings() {
    assert!(ComplianceService::suspicious_findings(5, 2).is_empty());
    let f = ComplianceService::suspicious_findings(6, 3);
    assert_eq!(f.len(), 2);
    assert_eq!(f[0].indicator_type, "structured_transaction");
    assert_eq!(f[0].description, "Detected 6 potential structuring transactions");
    assert_eq!(f[1].indicator_type, "circular_flow");
    assert_eq!(f[1].severity, "high");
    assert_eq!(f[1].description, "Detected circular money flows with 3 addresses");
}

#[test]
fn test_case_management_gate() {
    assert!(ComplianceService::check_case_management(true).is_ok());
    assert_eq!(
        ComplianceService::check_case_management(false).unwrap_err().message(),
        "Case management is disabled"
    );
}

#[test]
fn test_sanctions_provider_configuration() {
    assert!(ComplianceService::provider_configured("https://sanctions.acme.io/v1", "k-123"));
    assert!(!ComplianceService::provider_configured("https://example.com/screen", "k-123"));
    assert!(!ComplianceService::provider_configured("https://sanctions.acme.io/v1", "api-key"));
    let s = ComplianceService::unconfigured_screening();
    assert!(!s.sanctioned);
    assert_eq!(s.risk_score, None);
    assert_eq!(s.reasons, vec!["sanctions_provider_not_configured".to_string()]);
}
