//! Payment reconciliation: matching external records (bank, ledger, manual)
//! against recorded payments and tallying the outcome.
use vstd::prelude::*;

verus! {

/// How a record compares with the recorded payments.
#[derive(Debug, Clone, Copy, PartialEq, Eq, Structural)]
pub enum ReconciliationStatus {
    /// No payment matches the record yet.
    Pending,
    /// A payment with the same amount matches.
    Matched,
    /// A payment matches but its amount differs.
    Mismatched,
    /// Settled by hand.
    Resolved,
}

/// A status name that is not one of the known statuses.
#[derive(Debug, Clone, Copy, PartialEq, Eq, Structural)]
pub struct ParseStatusError;

impl ReconciliationStatus {
    /// The stored name of the status.
    pub fn as_str(&self) -> (s: &'static str)
        ensures
            s@ == status_name(*self),
            *self == ReconciliationStatus::Pending ==> s@ == "pending"@,
            *self == ReconciliationStatus::Matched ==> s@ == "matched"@,
            *self == ReconciliationStatus::Mismatched ==> s@ == "mismatched"@,
            *self == ReconciliationStatus::Resolved ==> s@ == "resolved"@,
    {
        match self {
            ReconciliationStatus::Pending => "pending",
            ReconciliationStatus::Matched => "matched",
            ReconciliationStatus::Mismatched => "mismatched",
            ReconciliationStatus::Resolved => "resolved",
        }
    }

    /// The status a stored name denotes.
    pub fn parse(s: &str) -> (r: Result<ReconciliationStatus, ParseStatusError>)
        ensures
            r is Ok <==> (s@ == "pending"@ || s@ == "matched"@ || s@ == "mismatched"@ || s@ == "resolved"@),
            r matches Ok(st) ==> status_name(st) == s@,
            s@ == "pending"@ ==> r == Ok::<ReconciliationStatus, ParseStatusError>(ReconciliationStatus::Pending),
            s@ == "matched"@ ==> r == Ok::<ReconciliationStatus, ParseStatusError>(ReconciliationStatus::Matched),
            s@ == "mismatched"@ ==> r == Ok::<ReconciliationStatus, ParseStatusError>(
                ReconciliationStatus::Mismatched,
            ),
            s@ == "resolved"@ ==> r == Ok::<ReconciliationStatus, ParseStatusError>(ReconciliationStatus::Resolved),
    {
        proof {
            lemma_status_names();
        }
        let t = String::from_str(s);
        if t == String::from_str("pending") {
            Ok(ReconciliationStatus::Pending)
        } else if t == String::from_str("matched") {
            Ok(ReconciliationStatus::Matched)
        } else if t == String::from_str("mismatched") {
            Ok(ReconciliationStatus::Mismatched)
        } else if t == String::from_str("resolved") {
            Ok(ReconciliationStatus::Resolved)
        } else {
            Err(ParseStatusError)
        }
    }
}

pub open spec fn status_name(s: ReconciliationStatus) -> Seq<char> {
    match s {
        ReconciliationStatus::Pending => "pending"@,
        ReconciliationStatus::Matched => "matched"@,
        ReconciliationStatus::Mismatched => "mismatched"@,
        ReconciliationStatus::Resolved => "resolved"@,
    }
}

/// Each status is stored under its own lower-case name, and the four names
/// are pairwise distinct.
pub proof fn lemma_status_names()
    ensures
        status_name(ReconciliationStatus::Pending) == "pending"@,
        status_name(ReconciliationStatus::Matched) == "matched"@,
        status_name(ReconciliationStatus::Mismatched) == "mismatched"@,
        status_name(ReconciliationStatus::Resolved) == "resolved"@,
        "pending"@ != "matched"@ && "pending"@ != "mismatched"@ && "pending"@ != "resolved"@,
        "matched"@ != "mismatched"@ && "matched"@ != "resolved"@,
        "mismatched"@ != "resolved"@,
{
    reveal_strlit("pending");
    reveal_strlit("matched");
    reveal_strlit("mismatched");
    reveal_strlit("resolved");
    assert("pending"@[0] != "matched"@[0] && "pending"@[0] != "mismatched"@[0] && "pending"@[0] != "resolved"@[0]);
    assert("matched"@[1] != "mismatched"@[1] && "matched"@[0] != "resolved"@[0]);
    assert("mismatched"@[0] != "resolved"@[0]);
}

/// Status names are distinct, so a stored name reads back as the status
/// that wrote it.
pub proof fn lemma_status_name_roundtrip(a: ReconciliationStatus, b: ReconciliationStatus)
    ensures
        status_name(a) == status_name(b) ==> a == b,
{
    reveal_strlit("pending");
    reveal_strlit("matched");
    reveal_strlit("mismatched");
    reveal_strlit("resolved");
    if status_name(a) == status_name(b) && a != b {
        assert(status_name(a).len() != status_name(b).len() || status_name(a)[0] != status_name(b)[0]
            || status_name(a)[1] != status_name(b)[1]);
    }
}

/// Where reconciled records come from.
#[derive(Debug, Clone, Copy, PartialEq, Eq, Structural)]
pub enum ReconciliationSource {
    Stellar,
    Bank,
    Manual,
}

impl ReconciliationSource {
    /// The stored name of the source.
    pub fn as_str(&self) -> (s: &'static str)
        ensures
            *self == ReconciliationSource::Stellar ==> s@ == "stellar"@,
            *self == ReconciliationSource::Bank ==> s@ == "bank"@,
            *self == ReconciliationSource::Manual ==> s@ == "manual"@,
    {
        match self {
            ReconciliationSource::Stellar => "stellar",
            ReconciliationSource::Bank => "bank",
            ReconciliationSource::Manual => "manual",
        }
    }

    /// Reads a stored source name; anything unknown reads as manual.
    pub fn from_stored(s: &str) -> (r: ReconciliationSource)
        ensures
            s@ == "stellar"@ ==> r == ReconciliationSource::Stellar,
            s@ == "bank"@ ==> r == ReconciliationSource::Bank,
            s@ != "stellar"@ && s@ != "bank"@ ==> r == ReconciliationSource::Manual,
    {
        proof {
            reveal_strlit("stellar");
            reveal_strlit("bank");
            assert("stellar"@.len() != "bank"@.len());
        }
        let t = String::from_str(s);
        if t == String::from_str("stellar") {
            ReconciliationSource::Stellar
        } else if t == String::from_str("bank") {
            ReconciliationSource::Bank
        } else {
            ReconciliationSource::Manual
        }
    }
}

/// An external record to reconcile (what matching reads of it).
#[derive(Debug, Clone)]
pub struct ExternalRecord {
    pub external_id: String,
    pub amount: i64,
    pub currency: String,
}

/// The recorded payment found for a record's id or transaction hash.
#[derive(Debug, Clone)]
pub struct PaymentMatch {
    pub payment_id: String,
    pub amount: i64,
}

/// Discrepancy details.
#[derive(Debug, Clone)]
pub struct Discrepancy {
    pub external_id: Option<String>,
    pub payment_id: Option<String>,
    pub reason: String,
    pub expected_amount: Option<i64>,
    pub actual_amount: Option<i64>,
}

/// Reconciliation result.
#[derive(Debug, Clone)]
pub struct ReconciliationResult {
    pub total_records: i64,
    pub matched: i64,
    pub mismatched: i64,
    pub pending: i64,
    pub discrepancies: Vec<Discrepancy>,
}

/// Query of stored reconciliations.
#[derive(Debug, Clone)]
pub struct ReconciliationQuery {
    pub status: Option<String>,
    pub limit: i64,
    pub offset: i64,
}

/// Manual resolution of a reconciliation.
#[derive(Debug, Clone)]
pub struct ResolveReconciliationRequest {
    pub new_status: String,
    pub notes: Option<String>,
}

/// The page size of a reconciliation query that names none.
pub fn default_limit() -> (n: i64)
    ensures
        n == 50,
{
    50
}

/// The status a record gets against what was found for it.
pub open spec fn classify(amount: i64, found: Option<PaymentMatch>) -> ReconciliationStatus {
    match found {
        None => ReconciliationStatus::Pending,
        Some(m) => if m.amount == amount {
            ReconciliationStatus::Matched
        } else {
            ReconciliationStatus::Mismatched
        },
    }
}

/// How many of the first records get status `st`.
pub open spec fn count_status(records: Seq<ExternalRecord>, found: Seq<Option<PaymentMatch>>, st: ReconciliationStatus) -> int
    decreases records.len(),
{
    if records.len() == 0 {
        0
    } else {
        count_status(records.drop_last(), found.drop_last(), st) + if classify(
            records.last().amount,
            found[records.len() - 1],
        ) == st {
            1int
        } else {
            0int
        }
    }
}

/// A discrepancy as plain values: external id, payment id, reason, expected
/// amount, actual amount.
pub open spec fn discrepancy_view(d: Discrepancy) -> (Option<Seq<char>>, Option<Seq<char>>, Seq<char>, Option<i64>, Option<i64>) {
    (
        match d.external_id {
            Some(s) => Some(s@),
            None => None,
        },
        match d.payment_id {
            Some(s) => Some(s@),
            None => None,
        },
        d.reason@,
        d.expected_amount,
        d.actual_amount,
    )
}

/// The discrepancy a record raises against what was found for it: none for a
/// match, an amount mismatch naming both amounts, or a missing payment.
pub open spec fn record_discrepancy(record: ExternalRecord, found: Option<PaymentMatch>) -> Seq<
    (Option<Seq<char>>, Option<Seq<char>>, Seq<char>, Option<i64>, Option<i64>),
> {
    match found {
        None => seq![
            (Some(record.external_id@), None, "No matching payment found"@, None, Some(record.amount)),
        ],
        Some(m) => if m.amount == record.amount {
            seq![]
        } else {
            seq![
                (
                    Some(record.external_id@),
                    Some(m.payment_id@),
                    "Amount mismatch"@,
                    Some(m.amount),
                    Some(record.amount),
                ),
            ]
        },
    }
}

/// The discrepancies of the records, in record order.
pub open spec fn record_discrepancies(records: Seq<ExternalRecord>, found: Seq<Option<PaymentMatch>>) -> Seq<
    (Option<Seq<char>>, Option<Seq<char>>, Seq<char>, Option<i64>, Option<i64>),
>
    decreases records.len(),
{
    if records.len() == 0 {
        seq![]
    } else {
        record_discrepancies(records.drop_last(), found.drop_last()) + record_discrepancy(
            records.last(),
            found[records.len() - 1],
        )
    }
}

/// What one record's reconciliation produced: its status and matching payment.
#[derive(Debug, Clone)]
pub struct RecordOutcome {
    pub status: ReconciliationStatus,
    pub payment_id: Option<String>,
}

impl ReconciliationResult {
    /// An empty tally for a run over `total_records` records.
    pub fn new(total_records: i64) -> (r: ReconciliationResult)
        ensures
            r.total_records == total_records,
            r.matched == 0 && r.mismatched == 0 && r.pending == 0,
            r.discrepancies@.len() == 0,
    {
        ReconciliationResult { total_records, matched: 0, mismatched: 0, pending: 0, discrepancies: Vec::new() }
    }
}

/// The reconciliation service's decisions; the queries and inserts around
/// them belong to the host.
pub struct ReconciliationService;

impl ReconciliationService {
    /// Reconcile one record against the payment found for it (if any): equal
    /// amounts match; different amounts are a mismatch; no payment leaves the
    /// record pending. Every mismatch and pending record adds a discrepancy.
    pub fn reconcile_record(result: &mut ReconciliationResult, record: &ExternalRecord, found: Option<PaymentMatch>) -> (o: RecordOutcome)
        requires
            0 <= old(result).matched,
            0 <= old(result).mismatched,
            0 <= old(result).pending,
            old(result).matched + old(result).mismatched + old(result).pending < i64::MAX,
        ensures
            o.status == classify(record.amount, found),
            found is None ==> o.status == ReconciliationStatus::Pending,
            found matches Some(m) && m.amount == record.amount ==> o.status == ReconciliationStatus::Matched,
            found matches Some(m) && m.amount != record.amount ==> o.status == ReconciliationStatus::Mismatched,
            final(result).discrepancies@.map_values(|d: Discrepancy| discrepancy_view(d)) == old(
                result,
            ).discrepancies@.map_values(|d: Discrepancy| discrepancy_view(d)) + record_discrepancy(*record, found),
            final(result).total_records == old(result).total_records,
            final(result).matched == old(result).matched + if o.status == ReconciliationStatus::Matched {
                1int
            } else {
                0
            },
            final(result).mismatched == old(result).mismatched + if o.status
                == ReconciliationStatus::Mismatched {
                1int
            } else {
                0
            },
            final(result).pending == old(result).pending + if o.status == ReconciliationStatus::Pending {
                1int
            } else {
                0
            },
            match found {
                None => {
                    &&& o.payment_id is None
                    &&& final(result).discrepancies@.len() == old(result).discrepancies@.len() + 1
                    &&& final(result).discrepancies@.drop_last() == old(result).discrepancies@
                    &&& final(result).discrepancies@.last().external_id == Some(record.external_id)
                    &&& final(result).discrepancies@.last().payment_id is None
                    &&& final(result).discrepancies@.last().reason@ == "No matching payment found"@
                    &&& final(result).discrepancies@.last().expected_amount is None
                    &&& final(result).discrepancies@.last().actual_amount == Some(record.amount)
                },
                Some(m) => {
                    &&& o.payment_id == Some(m.payment_id)
                    &&& m.amount == record.amount ==> final(result).discrepancies == old(result).discrepancies
                    &&& m.amount != record.amount ==> {
                        &&& final(result).discrepancies@.len() == old(result).discrepancies@.len() + 1
                        &&& final(result).discrepancies@.drop_last() == old(result).discrepancies@
                        &&& final(result).discrepancies@.last().external_id == Some(record.external_id)
                        &&& final(result).discrepancies@.last().payment_id == Some(m.payment_id)
                        &&& final(result).discrepancies@.last().reason@ == "Amount mismatch"@
                        &&& final(result).discrepancies@.last().expected_amount == Some(m.amount)
                        &&& final(result).discrepancies@.last().actual_amount == Some(record.amount)
                    }
                },
            },
    {
        match found {
            Some(m) => {
                if m.amount == record.amount {
                    result.matched = result.matched + 1;
                    RecordOutcome { status: ReconciliationStatus::Matched, payment_id: Some(m.payment_id) }
                } else {
                    result.mismatched = result.mismatched + 1;
                    let payment_id = m.payment_id.clone();
                    result.discrepancies.push(
                        Discrepancy {
                            external_id: Some(record.external_id.clone()),
                            payment_id: Some(m.payment_id),
                            reason: String::from_str("Amount mismatch"),
                            expected_amount: Some(m.amount),
                            actual_amount: Some(record.amount),
                        },
                    );
                    proof {
                        assert(result.discrepancies@.drop_last() =~= old(result).discrepancies@);
                    }
                    RecordOutcome { status: ReconciliationStatus::Mismatched, payment_id: Some(payment_id) }
                }
            },
            None => {
                result.pending = result.pending + 1;
                result.discrepancies.push(
                    Discrepancy {
                        external_id: Some(record.external_id.clone()),
                        payment_id: None,
                        reason: String::from_str("No matching payment found"),
                        expected_amount: None,
                        actual_amount: Some(record.amount),
                    },
                );
                proof {
                    assert(result.discrepancies@.drop_last() =~= old(result).discrepancies@);
                }
                RecordOutcome { status: ReconciliationStatus::Pending, payment_id: None }
            },
        }
    }

    /// Reconcile every record against what was found for it, in order.
    pub fn reconcile_all(records: &Vec<ExternalRecord>, found: Vec<Option<PaymentMatch>>) -> (r: ReconciliationResult)
        requires
            found@.len() == records@.len(),
            records@.len() < i64::MAX,
        ensures
            r.total_records == records@.len(),
            r.matched == count_status(records@, found@, ReconciliationStatus::Matched),
            r.mismatched == count_status(records@, found@, ReconciliationStatus::Mismatched),
            r.pending == count_status(records@, found@, ReconciliationStatus::Pending),
            r.matched + r.mismatched + r.pending == records@.len(),
            r.discrepancies@.len() == r.mismatched + r.pending,
            r.discrepancies@.map_values(|d: Discrepancy| discrepancy_view(d)) == record_discrepancies(
                records@,
                found@,
            ),
    {
        let n = records.len();
        let mut result = ReconciliationResult::new(n as i64);
        let mut i: usize = 0;
        while i < n
            invariant
                n == records@.len(),
                n < i64::MAX,
                found@.len() == n,
                0 <= i <= n,
                result.total_records == n,
                result.matched == count_status(records@.subrange(0, i as int), found@.subrange(0, i as int), ReconciliationStatus::Matched),
                result.mismatched == count_status(records@.subrange(0, i as int), found@.subrange(0, i as int), ReconciliationStatus::Mismatched),
                result.pending == count_status(records@.subrange(0, i as int), found@.subrange(0, i as int), ReconciliationStatus::Pending),
                result.matched + result.mismatched + result.pending == i,
                result.matched >= 0 && result.mismatched >= 0 && result.pending >= 0,
                result.discrepancies@.len() == result.mismatched + result.pending,
                result.discrepancies@.map_values(|d: Discrepancy| discrepancy_view(d)) == record_discrepancies(
                    records@.subrange(0, i as int),
                    found@.subrange(0, i as int),
                ),
            decreases n - i,
        {
            let f = match &found[i] {
                Some(m) => Some(PaymentMatch { payment_id: m.payment_id.clone(), amount: m.amount }),
                None => None,
            };
            let ghost fi = found@[i as int];
            assert(f == fi);
            let _ = Self::reconcile_record(&mut result, &records[i], f);
            proof {
                let rs = records@.subrange(0, i + 1);
                let fs = found@.subrange(0, i + 1);
                assert(rs.drop_last() =~= records@.subrange(0, i as int));
                assert(fs.drop_last() =~= found@.subrange(0, i as int));
                assert(rs.last() == records@[i as int]);
                assert(fs[rs.len() - 1] == fi);
            }
            i = i + 1;
        }
        proof {
            assert(records@.subrange(0, n as int) =~= records@);
            assert(found@.subrange(0, n as int) =~= found@);
        }
        result
    }
}

} // verus!
