use payments_core::analytics::{AnalyticsService, CsvRow, MerchantPerformanceQuery};
use payments_core::audit::{AuditLogFilter, AuditService};
use payments_core::currency::{Currency, CurrencyService};
use payments_core::payout::{PayoutLine, PayoutService, PayoutStatus};
use payments_core::reconciliation::{
    default_limit, ExternalRecord, PaymentMatch, ReconciliationResult, ReconciliationService,
    ReconciliationSource, ReconciliationStatus,
};
use payments_core::text::{contains, i64_to_decimal, starts_with, u64_to_decimal};
use std::str::FromStr;

#[test]
fn test_currency_codes() {
    assert_eq!(Currency::USD.as_str(), "USD");
    assert_eq!(Currency::JPY.as_str(), "JPY");
    assert_eq!(Currency::from_str("usd"), Ok(Currency::USD));
    assert_eq!(Currency::parse("eUr"), Ok(Currency::EUR));
    assert_eq!(Currency::from_code("GBP"), Ok(Currency::GBP));
    assert!(Currency::from_code("gbp").is_err());
    assert!(Currency::parse("CHF").is_err());
    assert_eq!(Currency::parse("xyz").unwrap_err().message(), "invalid currency code");
    assert_eq!(
        CurrencyService::get_supported_currencies(),
        vec![Currency::USD, Currency::EUR, Currency::GBP, Currency::JPY]
    );
}

fn record(id: &str, amount: i64) -> ExternalRecord {
    ExternalRecord { external_id: id.to_string(), amount, currency: "USD".to_string() }
}

fn found(id: &str, amount: i64) -> Option<PaymentMatch> {
    Some(PaymentMatch { payment_id: id.to_string(), amount })
}

#[test]
fn test_reconcile_record_outcomes() {
    let mut result = ReconciliationResult::new(3);
    let o = ReconciliationService::reconcile_record(&mut result, &record("tx1", 100), found("p1", 100));
    assert_eq!(o.status, ReconciliationStatus::Matched);
    assert_eq!(o.payment_id.as_deref(), Some("p1"));
    let o = ReconciliationService::reconcile_record(&mut result, &record("tx2", 100), found("p2", 90));
    assert_eq!(o.status, ReconciliationStatus::Mismatched);
    let o = ReconciliationService::reconcile_record(&mut result, &record("tx3", 70), None);
    assert_eq!(o.status, ReconciliationStatus::Pending);
    assert_eq!(o.payment_id, None);
    assert_eq!((result.matched, result.mismatched, result.pending), (1, 1, 1));
    assert_eq!(result.discrepancies.len(), 2);
    assert_eq!(result.discrepancies[0].reason, "Amount mismatch");
    assert_eq!(result.discrepancies[0].expected_amount, Some(90));
    assert_eq!(result.discrepancies[0].actual_amount, Some(100));
    assert_eq!(result.discrepancies[1].reason, "No matching payment found");
    assert_eq!(result.discrepancies[1].payment_id, None);
    assert_eq!(result.discrepancies[1].external_id.as_deref(), Some("tx3"));
}

#[test]
fn test_reconcile_all_tallies() {
    let records = vec![record("a", 1), record("b", 2), record("c", 3), record("d", 4)];
    let matches = vec![found("pa", 1), None, found("pc", 30), found("pd", 4)];
    let r = ReconciliationService::reconcile_all(&records, matches);
    assert_eq!(r.total_records, 4);
    assert_eq!((r.matched, r.mismatched, r.pending), (2, 1, 1));
    assert_eq!(r.discrepancies.len(), 2);
}

#[test]
fn test_reconciliation_names() {
    assert_eq!(default_limit(), 50);
    assert_eq!(ReconciliationStatus::Mismatched.as_str(), "mismatched");
    assert_eq!(ReconciliationStatus::parse("matched"), Ok(ReconciliationStatus::Matched));
    assert!(ReconciliationStatus::parse("Matched").is_err());
    assert_eq!(ReconciliationSource::Bank.as_str(), "bank");
    assert_eq!(ReconciliationSource::from_stored("stellar"), ReconciliationSource::Stellar);
    assert_eq!(ReconciliationSource::from_stored("bank"), ReconciliationSource::Bank);
    assert_eq!(ReconciliationSource::from_stored("csv"), ReconciliationSource::Manual);
}

fn filter(actor: bool, action: bool, from: bool, to: bool, limit: i64, offset: i64) -> AuditLogFilter {
    AuditLogFilter { actor_id: actor, action, from_date: from, to_date: to, limit, offset }
}

#[test]
fn test_audit_list_query() {
    let q = AuditService::build_list_query(&filter(true, false, true, false, 500, -4));
    assert_eq!(
        q.sql,
        "SELECT id, actor_id, action, resource, resource_id, metadata, timestamp, ip_address, user_agent\n             FROM audit_logs\n             WHERE 1=1 AND actor_id = $1 AND timestamp >= $2 ORDER BY timestamp DESC LIMIT $3 OFFSET $4"
    );
    assert_eq!((q.limit, q.offset), (100, 0));
    let q = AuditService::build_list_query(&filter(false, false, false, false, 0, 7));
    assert!(q.sql.ends_with("WHERE 1=1 ORDER BY timestamp DESC LIMIT $1 OFFSET $2"));
    assert_eq!((q.limit, q.offset), (1, 7));
}

#[test]
fn test_audit_count_query() {
    assert_eq!(
        AuditService::build_count_query(&filter(true, true, true, true, 10, 0)),
        "SELECT COUNT(*) FROM audit_logs WHERE 1=1 AND actor_id = $1 AND action = $2 AND timestamp >= $3 AND timestamp <= $4"
    );
    assert_eq!(AuditService::auth_action(true), "auth_success");
    assert_eq!(AuditService::auth_action(false), "auth_failed");
}

#[test]
fn test_payout_batch_summary() {
    let lines = vec![
        PayoutLine { amount: 100, currency: "USD".to_string() },
        PayoutLine { amount: 250, currency: "EUR".to_string() },
    ];
    let s = PayoutService::summarize_batch(&lines).unwrap();
    assert_eq!((s.total_amount, s.payout_count), (350, 2));
    assert_eq!(s.currency, "USD");
    assert!(PayoutService::summarize_batch(&vec![]).is_none());
    let big = vec![
        PayoutLine { amount: i64::MAX, currency: "USD".to_string() },
        PayoutLine { amount: 1, currency: "USD".to_string() },
    ];
    assert!(PayoutService::summarize_batch(&big).is_none());
}

#[test]
fn test_payout_statuses() {
    assert!(PayoutService::marks_processed(PayoutStatus::Completed));
    assert!(PayoutService::marks_processed(PayoutStatus::Failed));
    assert!(!PayoutService::marks_processed(PayoutStatus::Pending));
    assert!(PayoutService::marks_reconciled("reconciled"));
    assert!(!PayoutService::marks_reconciled("pending"));
    assert_eq!(PayoutStatus::parse("scheduled"), Ok(PayoutStatus::Scheduled));
    assert_eq!(PayoutStatus::Processing.as_str(), "processing");
    assert!(PayoutStatus::parse("done").is_err());
}

#[test]
fn test_analytics() {
    assert_eq!(AnalyticsService::average_payment_amount(1000, 3), 333);
    assert_eq!(AnalyticsService::average_payment_amount(-1000, 3), -333);
    assert_eq!(AnalyticsService::average_payment_amount(1000, 0), 0);
    assert_eq!(MerchantPerformanceQuery { days: None }.period_days(), 30);
    assert_eq!(MerchantPerformanceQuery { days: Some(7) }.period_days(), 7);
    let m = AnalyticsService::payment_method_breakdown(4, 900);
    assert_eq!(m.len(), 1);
    assert_eq!((m[0].method.as_str(), m[0].count, m[0].total_amount), ("Stellar", 4, 900));
}

#[test]
fn test_csv_export() {
    let rows = vec![
        CsvRow {
            id: "p1".to_string(),
            merchant_id: "m1".to_string(),
            amount: 1500,
            status: "completed".to_string(),
            created_at: "2024-01-02T03:04:05+00:00".to_string(),
        },
        CsvRow {
            id: "p2".to_string(),
            merchant_id: "m1".to_string(),
            amount: -7,
            status: "failed".to_string(),
            created_at: "2024-01-03T00:00:00+00:00".to_string(),
        },
    ];
    assert_eq!(
        AnalyticsService::export_csv(&rows),
        "id,merchant_id,amount,status,created_at\np1,m1,1500,completed,2024-01-02T03:04:05+00:00\np2,m1,-7,failed,2024-01-03T00:00:00+00:00\n"
    );
    assert_eq!(AnalyticsService::export_csv(&vec![]), "id,merchant_id,amount,status,created_at\n");
}

#[test]
fn test_text_helpers() {
    assert!(starts_with("https://x", "https://"));
    assert!(!starts_with("http", "https://"));
    assert!(contains("abcabd", "abd"));
    assert!(contains("abc", ""));
    assert!(!contains("ab", "abc"));
    assert_eq!(u64_to_decimal(0), "0");
    assert_eq!(u64_to_decimal(18446744073709551615), "18446744073709551615");
    assert_eq!(i64_to_decimal(-9223372036854775808), "-9223372036854775808");
    assert_eq!(i64_to_decimal(42), "42");
}
