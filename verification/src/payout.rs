//! Payouts: status names, batch totals, and when a payout or its
//! reconciliation counts as settled.
use vstd::prelude::*;

verus! {

#[derive(Debug, Clone, Copy, PartialEq, Eq, Structural)]
pub enum PayoutStatus {
    Pending,
    Scheduled,
    Processing,
    Completed,
    Failed,
}

/// A status name that is not one of the known statuses.
#[derive(Debug, Clone, Copy, PartialEq, Eq, Structural)]
pub struct ParsePayoutStatusError;

pub open spec fn payout_status_name(s: PayoutStatus) -> Seq<char> {
    match s {
        PayoutStatus::Pending => "pending"@,
        PayoutStatus::Scheduled => "scheduled"@,
        PayoutStatus::Processing => "processing"@,
        PayoutStatus::Completed => "completed"@,
        PayoutStatus::Failed => "failed"@,
    }
}

impl PayoutStatus {
    /// The stored name of the status.
    pub fn as_str(&self) -> (s: &'static str)
        ensures
            s@ == payout_status_name(*self),
            *self == PayoutStatus::Pending ==> s@ == "pending"@,
            *self == PayoutStatus::Scheduled ==> s@ == "scheduled"@,
            *self == PayoutStatus::Processing ==> s@ == "processing"@,
            *self == PayoutStatus::Completed ==> s@ == "completed"@,
            *self == PayoutStatus::Failed ==> s@ == "failed"@,
    {
        match self {
            PayoutStatus::Pending => "pending",
            PayoutStatus::Scheduled => "scheduled",
            PayoutStatus::Processing => "processing",
            PayoutStatus::Completed => "completed",
            PayoutStatus::Failed => "failed",
        }
    }

    /// The status a stored name denotes.
    pub fn parse(s: &str) -> (r: Result<PayoutStatus, ParsePayoutStatusError>)
        ensures
            r is Ok <==> (s@ == "pending"@ || s@ == "scheduled"@ || s@ == "processing"@ || s@ == "completed"@
                || s@ == "failed"@),
            r matches Ok(st) ==> payout_status_name(st) == s@,
            s@ == "pending"@ ==> r == Ok::<PayoutStatus, ParsePayoutStatusError>(PayoutStatus::Pending),
            s@ == "scheduled"@ ==> r == Ok::<PayoutStatus, ParsePayoutStatusError>(PayoutStatus::Scheduled),
            s@ == "processing"@ ==> r == Ok::<PayoutStatus, ParsePayoutStatusError>(PayoutStatus::Processing),
            s@ == "completed"@ ==> r == Ok::<PayoutStatus, ParsePayoutStatusError>(PayoutStatus::Completed),
            s@ == "failed"@ ==> r == Ok::<PayoutStatus, ParsePayoutStatusError>(PayoutStatus::Failed),
    {
        proof {
            lemma_payout_status_names();
        }
        let t = String::from_str(s);
        if t == String::from_str("pending") {
            Ok(PayoutStatus::Pending)
        } else if t == String::from_str("scheduled") {
            Ok(PayoutStatus::Scheduled)
        } else if t == String::from_str("processing") {
            Ok(PayoutStatus::Processing)
        } else if t == String::from_str("completed") {
            Ok(PayoutStatus::Completed)
        } else if t == String::from_str("failed") {
            Ok(PayoutStatus::Failed)
        } else {
            Err(ParsePayoutStatusError)
        }
    }
}

/// Each status is stored under its own lower-case name, and the five names
/// are pairwise distinct.
pub proof fn lemma_payout_status_names()
    ensures
        payout_status_name(PayoutStatus::Pending) == "pending"@,
        payout_status_name(PayoutStatus::Scheduled) == "scheduled"@,
        payout_status_name(PayoutStatus::Processing) == "processing"@,
        payout_status_name(PayoutStatus::Completed) == "completed"@,
        payout_status_name(PayoutStatus::Failed) == "failed"@,
        "pending"@ != "scheduled"@ && "pending"@ != "processing"@ && "pending"@ != "completed"@
            && "pending"@ != "failed"@,
        "scheduled"@ != "processing"@ && "scheduled"@ != "completed"@ && "scheduled"@ != "failed"@,
        "processing"@ != "completed"@ && "processing"@ != "failed"@,
        "completed"@ != "failed"@,
{
    reveal_strlit("pending");
    reveal_strlit("scheduled");
    reveal_strlit("processing");
    reveal_strlit("completed");
    reveal_strlit("failed");
    assert("pending"@[0] != "scheduled"@[0] && "pending"@[0] != "completed"@[0] && "pending"@[0] != "failed"@[0]);
    assert("pending"@[1] != "processing"@[1]);
    assert("scheduled"@[0] != "completed"@[0] && "scheduled"@[0] != "failed"@[0] && "scheduled"@[0] != "processing"@[0]);
    assert("processing"@[0] != "completed"@[0] && "processing"@[0] != "failed"@[0]);
    assert("completed"@[0] != "failed"@[0]);
}

/// Status names are distinct, so a stored name reads back as the status
/// that wrote it.
pub proof fn lemma_payout_status_roundtrip(a: PayoutStatus, b: PayoutStatus)
    ensures
        payout_status_name(a) == payout_status_name(b) ==> a == b,
{
    reveal_strlit("pending");
    reveal_strlit("scheduled");
    reveal_strlit("processing");
    reveal_strlit("completed");
    reveal_strlit("failed");
    if payout_status_name(a) == payout_status_name(b) && a != b {
        assert(payout_status_name(a).len() != payout_status_name(b).len() || payout_status_name(a)[0]
            != payout_status_name(b)[0]);
    }
}

/// One payout of a batch request, as far as the batch totals read it.
#[derive(Debug, Clone)]
pub struct PayoutLine {
    pub amount: i64,
    pub currency: String,
}

/// The figures a batch record is created with.
#[derive(Debug, Clone)]
pub struct BatchSummary {
    pub total_amount: i64,
    pub payout_count: usize,
    pub currency: String,
}

/// The sum of the payout amounts.
pub open spec fn amount_sum(lines: Seq<PayoutLine>) -> int
    decreases lines.len(),
{
    if lines.len() == 0 {
        0
    } else {
        amount_sum(lines.drop_last()) + lines.last().amount
    }
}

/// The total of a batch is additive: the total of two batches put together is
/// the sum of their totals, a single payout totals its own amount, and an
/// empty batch totals nothing.
pub proof fn lemma_amount_sum_additive(a: Seq<PayoutLine>, b: Seq<PayoutLine>, x: PayoutLine)
    ensures
        amount_sum(a + b) == amount_sum(a) + amount_sum(b),
        amount_sum(seq![x]) == x.amount,
        amount_sum(Seq::<PayoutLine>::empty()) == 0,
    decreases b.len(),
{
    assert(seq![x].drop_last() =~= Seq::<PayoutLine>::empty());
    assert(amount_sum(seq![x]) == amount_sum(Seq::<PayoutLine>::empty()) + seq![x].last().amount);
    if b.len() == 0 {
        assert(a + b =~= a);
    } else {
        lemma_amount_sum_additive(a, b.drop_last(), x);
        assert((a + b).drop_last() =~= a + b.drop_last());
        assert((a + b).last() == b.last());
    }
}

/// Whether every prefix sum of the amounts fits in `i64` (the sum is taken in order).
pub open spec fn sums_fit(lines: Seq<PayoutLine>) -> bool {
    forall|k: int| 0 <= k <= lines.len() ==> i64::MIN <= #[trigger] amount_sum(lines.subrange(0, k)) <= i64::MAX
}

/// The payout service's computations; the database work belongs to the host.
pub struct PayoutService;

impl PayoutService {
    /// A batch's totals: the sum of its amounts, its size, and the currency of
    /// its first payout. `None` when the batch is empty (there is no first
    /// payout) or when summing overflows.
    pub fn summarize_batch(lines: &Vec<PayoutLine>) -> (r: Option<BatchSummary>)
        ensures
            r is Some <==> lines@.len() > 0 && sums_fit(lines@),
            r matches Some(s) ==> s.total_amount == amount_sum(lines@) && s.payout_count == lines@.len()
                && s.currency == lines@[0].currency,
    {
        let n = lines.len();
        if n == 0 {
            return None;
        }
        let mut total: i64 = 0;
        let mut i: usize = 0;
        while i < n
            invariant
                n == lines@.len(),
                0 <= i <= n,
                total == amount_sum(lines@.subrange(0, i as int)),
                forall|k: int| 0 <= k <= i ==> i64::MIN <= #[trigger] amount_sum(lines@.subrange(0, k)) <= i64::MAX,
            decreases n - i,
        {
            proof {
                assert(lines@.subrange(0, i + 1).drop_last() =~= lines@.subrange(0, i as int));
            }
            match total.checked_add(lines[i].amount) {
                Some(t) => total = t,
                None => {
                    assert(lines@.subrange(0, i + 1).last() == lines@[i as int]);
                    assert(!(i64::MIN <= amount_sum(lines@.subrange(0, i + 1)) <= i64::MAX));
                    return None;
                },
            }
            proof {
                assert(lines@.subrange(0, i + 1).last() == lines@[i as int]);
            }
            i = i + 1;
        }
        assert(lines@.subrange(0, n as int) =~= lines@);
        Some(BatchSummary { total_amount: total, payout_count: n, currency: lines[0].currency.clone() })
    }

    /// A payout gets a processing time when it completes or fails.
    pub fn marks_processed(status: PayoutStatus) -> (b: bool)
        ensures
            b == (status == PayoutStatus::Completed || status == PayoutStatus::Failed),
    {
        status == PayoutStatus::Completed || status == PayoutStatus::Failed
    }

    /// A payout reconciliation gets a reconciliation time when its status is `reconciled`.
    pub fn marks_reconciled(status: &str) -> (b: bool)
        ensures
            b == (status@ == "reconciled"@),
    {
        String::from_str(status) == String::from_str("reconciled")
    }
}

} // verus!
