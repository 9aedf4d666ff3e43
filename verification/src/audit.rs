//! Audit log queries: the SQL text of filtered listings and counts, and the
//! paging bounds.
use crate::text::{decimal, push_decimal};
use vstd::prelude::*;

verus! {

/// Which filters an audit-log query applies, and its paging request.
#[derive(Debug, Clone, Copy, PartialEq, Eq, Structural)]
pub struct AuditLogFilter {
    pub actor_id: bool,
    pub action: bool,
    pub from_date: bool,
    pub to_date: bool,
    pub limit: i64,
    pub offset: i64,
}

/// A listing query: its SQL text and the paging values bound after the filters.
#[derive(Debug, Clone)]
pub struct AuditListQuery {
    pub sql: String,
    pub limit: i64,
    pub offset: i64,
}

/// Appends one filter clause when the filter is present: the clause text and
/// the next parameter number, which then advances.
pub open spec fn filter_step(sql: Seq<char>, index: nat, present: bool, clause: Seq<char>) -> (Seq<char>, nat) {
    if present {
        (sql + clause + decimal(index), index + 1)
    } else {
        (sql, index)
    }
}

/// The filter clauses of a query in the order actor, action, from, to, with
/// parameters numbered from 1; and the next free parameter number.
pub open spec fn filter_clauses(f: AuditLogFilter) -> (Seq<char>, nat) {
    let a = filter_step(seq![], 1, f.actor_id, " AND actor_id = $"@);
    let b = filter_step(a.0, a.1, f.action, " AND action = $"@);
    let c = filter_step(b.0, b.1, f.from_date, " AND timestamp >= $"@);
    filter_step(c.0, c.1, f.to_date, " AND timestamp <= $"@)
}

pub open spec fn list_select() -> Seq<char> {
    "SELECT id, actor_id, action, resource, resource_id, metadata, timestamp, ip_address, user_agent\n             FROM audit_logs\n             WHERE 1=1"@
}

pub open spec fn count_select() -> Seq<char> {
    "SELECT COUNT(*) FROM audit_logs WHERE 1=1"@
}

/// `limit.clamp(1, 100)`.
pub open spec fn page_limit(limit: i64) -> i64 {
    if limit < 1 {
        1
    } else if limit > 100 {
        100
    } else {
        limit
    }
}

/// `offset.max(0)`.
pub open spec fn page_offset(offset: i64) -> i64 {
    if offset < 0 {
        0
    } else {
        offset
    }
}

/// Parameters are numbered consecutively: the filters take `$1` onwards, one
/// number each, and the next free number is one past the count of filters.
pub proof fn lemma_filter_numbering(f: AuditLogFilter)
    ensures
        filter_clauses(f).1 == 1 + (if f.actor_id {
            1nat
        } else {
            0
        }) + (if f.action {
            1nat
        } else {
            0
        }) + (if f.from_date {
            1nat
        } else {
            0
        }) + (if f.to_date {
            1nat
        } else {
            0
        }),
{
}

/// Paging stays within bounds and otherwise keeps what was asked: the limit
/// used is the requested one moved into 1..=100 (the nearest bound when it
/// lies outside), and the offset is the requested one, or 0 when it is
/// negative; a non-negative offset is never shortened, so pages never repeat.
pub proof fn lemma_paging_bounds(limit: i64, offset: i64)
    ensures
        1 <= page_limit(limit) <= 100,
        page_offset(offset) >= 0,
        1 <= limit <= 100 ==> page_limit(limit) == limit,
        limit < 1 ==> page_limit(limit) == 1,
        limit > 100 ==> page_limit(limit) == 100,
        offset >= 0 ==> page_offset(offset) == offset,
        offset < 0 ==> page_offset(offset) == 0,
{
}

fn push_filter(sql: &mut String, index: &mut u64, present: bool, clause: &str)
    requires
        *old(index) >= 1,
        *old(index) < 10,
    ensures
        (final(sql)@, *final(index) as nat) == filter_step(old(sql)@, *old(index) as nat, present, clause@),
        *final(index) <= *old(index) + 1,
        *final(index) >= *old(index),
{
    if present {
        sql.append(clause);
        push_decimal(sql, *index);
        *index = *index + 1;
        assert(final(sql)@ =~= old(sql)@ + clause@ + decimal(*old(index) as nat));
    }
}

fn push_filters(sql: &mut String, f: &AuditLogFilter) -> (next: u64)
    ensures
        final(sql)@ == old(sql)@ + filter_clauses(*f).0,
        next == filter_clauses(*f).1,
        1 <= next <= 5,
{
    let mut clauses = String::new();
    let mut index: u64 = 1;
    push_filter(&mut clauses, &mut index, f.actor_id, " AND actor_id = $");
    push_filter(&mut clauses, &mut index, f.action, " AND action = $");
    push_filter(&mut clauses, &mut index, f.from_date, " AND timestamp >= $");
    push_filter(&mut clauses, &mut index, f.to_date, " AND timestamp <= $");
    sql.append(clauses.as_str());
    index
}

/// The audit service's query building; running the queries belongs to the host.
pub struct AuditService;

impl AuditService {
    /// The action recorded for an authentication attempt.
    pub fn auth_action(success: bool) -> (a: &'static str)
        ensures
            success ==> a@ == "auth_success"@,
            !success ==> a@ == "auth_failed"@,
    {
        if success {
            "auth_success"
        } else {
            "auth_failed"
        }
    }

    /// The listing query: filters numbered from `$1`, newest first, then
    /// `LIMIT`/`OFFSET` as the two following parameters, with the limit clamped
    /// to 1..=100 and the offset to at least 0.
    pub fn build_list_query(f: &AuditLogFilter) -> (q: AuditListQuery)
        ensures
            ({
                let (clauses, next) = filter_clauses(*f);
                q.sql@ == list_select() + clauses + " ORDER BY timestamp DESC"@ + " LIMIT $"@ + decimal(next)
                    + " OFFSET $"@ + decimal(next + 1)
            }),
            q.limit == page_limit(f.limit),
            q.offset == page_offset(f.offset),
            1 <= f.limit <= 100 ==> q.limit == f.limit,
            f.limit < 1 ==> q.limit == 1,
            f.limit > 100 ==> q.limit == 100,
            f.offset >= 0 ==> q.offset == f.offset,
            f.offset < 0 ==> q.offset == 0,
    {
        let mut sql = String::from_str(
            "SELECT id, actor_id, action, resource, resource_id, metadata, timestamp, ip_address, user_agent\n             FROM audit_logs\n             WHERE 1=1",
        );
        let next = push_filters(&mut sql, f);
        sql.append(" ORDER BY timestamp DESC");
        sql.append(" LIMIT $");
        push_decimal(&mut sql, next);
        sql.append(" OFFSET $");
        push_decimal(&mut sql, next + 1);
        let limit = if f.limit < 1 {
            1
        } else if f.limit > 100 {
            100
        } else {
            f.limit
        };
        let offset = if f.offset < 0 {
            0
        } else {
            f.offset
        };
        AuditListQuery { sql, limit, offset }
    }

    /// The count query: the same filters, numbered from `$1`.
    pub fn build_count_query(f: &AuditLogFilter) -> (sql: String)
        ensures
            sql@ == count_select() + filter_clauses(*f).0,
    {
        let mut sql = String::from_str("SELECT COUNT(*) FROM audit_logs WHERE 1=1");
        let _ = push_filters(&mut sql, f);
        sql
    }
}

} // verus!
