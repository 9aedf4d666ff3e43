//! Payment analytics: average amounts, the payment-method breakdown, and the
//! CSV export.
use crate::text::{push_signed_decimal, signed_decimal};
use vstd::prelude::*;

verus! {

/// Query of a merchant's performance dashboard.
#[derive(Debug, Clone, Copy, PartialEq, Eq, Structural)]
pub struct MerchantPerformanceQuery {
    pub days: Option<i64>,
}

impl MerchantPerformanceQuery {
    /// The period in days: the requested one, 30 by default.
    pub fn period_days(&self) -> (d: i64)
        ensures
            d == match self.days {
                Some(x) => x,
                None => 30,
            },
    {
        match self.days {
            Some(x) => x,
            None => 30,
        }
    }
}

/// Payment method statistics.
#[derive(Debug, Clone)]
pub struct PaymentMethodStats {
    pub method: String,
    pub count: i64,
    pub total_amount: i64,
}

/// One exported payment, with its fields already rendered where they are not numbers.
#[derive(Debug, Clone)]
pub struct CsvRow {
    pub id: String,
    pub merchant_id: String,
    pub amount: i64,
    pub status: String,
    /// The creation time in RFC 3339.
    pub created_at: String,
}

/// `x / d` rounded toward zero, as `i64` division does (`d > 0`).
pub open spec fn div_toward_zero(x: int, d: int) -> int {
    if x >= 0 {
        x / d
    } else {
        -((-x) / d)
    }
}

/// The average rounds toward zero: for a positive count it is the whole part
/// of `total / count`, so `avg * count` is within one `count` of the total, on
/// the total's side of zero.
pub proof fn lemma_average_bounds(total: int, count: int)
    requires
        count > 0,
    ensures
        total >= 0 ==> 0 <= div_toward_zero(total, count) * count <= total < (div_toward_zero(total, count)
            + 1) * count,
        total < 0 ==> (div_toward_zero(total, count) - 1) * count < total <= div_toward_zero(total, count)
            * count <= 0,
{
    if total >= 0 {
        let q = total / count;
        assert(0 <= q * count <= total < (q + 1) * count) by (nonlinear_arith)
            requires
                total >= 0,
                count > 0,
                q == total / count,
        ;
    } else {
        let q = (-total) / count;
        assert(0 <= q * count <= -total < (q + 1) * count) by (nonlinear_arith)
            requires
                -total > 0,
                count > 0,
                q == (-total) / count,
        ;
        assert((-q - 1) * count < total <= (-q) * count <= 0) by (nonlinear_arith)
            requires
                0 <= q * count <= -total < (q + 1) * count,
        ;
    }
}

pub open spec fn csv_header() -> Seq<char> {
    "id,merchant_id,amount,status,created_at\n"@
}

/// One CSV line: the five fields separated by commas, ended by a newline.
pub open spec fn csv_line(r: CsvRow) -> Seq<char> {
    r.id@ + ","@ + r.merchant_id@ + ","@ + signed_decimal(r.amount as int) + ","@ + r.status@ + ","@
        + r.created_at@ + "\n"@
}

/// The lines of the rows, in order.
pub open spec fn csv_lines(rows: Seq<CsvRow>) -> Seq<char>
    decreases rows.len(),
{
    if rows.len() == 0 {
        seq![]
    } else {
        csv_lines(rows.drop_last()) + csv_line(rows.last())
    }
}

/// The analytics service's computations; the queries belong to the host.
pub struct AnalyticsService;

impl AnalyticsService {
    /// The average payment amount of a period, 0 when it had no payments.
    pub fn average_payment_amount(total_amount: i64, total_payments: i64) -> (avg: i64)
        ensures
            total_payments > 0 ==> avg == div_toward_zero(total_amount as int, total_payments as int),
            total_payments <= 0 ==> avg == 0,
            total_payments > 0 && total_amount >= 0 ==> 0 <= avg * total_payments <= total_amount < (avg + 1)
                * total_payments,
            total_payments > 0 && total_amount < 0 ==> (avg - 1) * total_payments < total_amount <= avg
                * total_payments <= 0,
    {
        proof {
            if total_payments > 0 {
                lemma_average_bounds(total_amount as int, total_payments as int);
            }
        }
        if total_payments > 0 {
            match total_amount.checked_div(total_payments) {
                Some(q) => q,
                None => 0,
            }
        } else {
            0
        }
    }

    /// The payment-method breakdown: every payment counts as a Stellar payment.
    pub fn payment_method_breakdown(total_payments: i64, total_amount: i64) -> (v: Vec<PaymentMethodStats>)
        ensures
            v@.len() == 1,
            v@[0].method@ == "Stellar"@,
            v@[0].count == total_payments,
            v@[0].total_amount == total_amount,
    {
        let mut v = Vec::new();
        v.push(PaymentMethodStats { method: String::from_str("Stellar"), count: total_payments, total_amount });
        v
    }

    /// The CSV export: a header line, then one line per payment.
    pub fn export_csv(rows: &Vec<CsvRow>) -> (csv: String)
        ensures
            csv@ == csv_header() + csv_lines(rows@),
    {
        let mut csv = String::from_str("id,merchant_id,amount,status,created_at\n");
        let n = rows.len();
        let mut i: usize = 0;
        while i < n
            invariant
                n == rows@.len(),
                0 <= i <= n,
                csv@ == csv_header() + csv_lines(rows@.subrange(0, i as int)),
            decreases n - i,
        {
            let r = &rows[i];
            csv.append(r.id.as_str());
            csv.append(",");
            csv.append(r.merchant_id.as_str());
            csv.append(",");
            push_signed_decimal(&mut csv, r.amount);
            csv.append(",");
            csv.append(r.status.as_str());
            csv.append(",");
            csv.append(r.created_at.as_str());
            csv.append("\n");
            proof {
                let s = rows@.subrange(0, i + 1);
                assert(s.drop_last() =~= rows@.subrange(0, i as int));
                assert(s.last() == rows@[i as int]);
                assert(csv@ =~= csv_header() + csv_lines(s));
            }
            i = i + 1;
        }
        assert(rows@.subrange(0, n as int) =~= rows@);
        csv
    }
}

} // verus!
