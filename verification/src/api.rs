use vstd::prelude::*;

use crate::models::{IndexedEvent, MatchInfo, MatchStatus, QueryFilters};
use crate::rpc::opt_view;
use crate::text::{decimal_digits, decimal_u64, join_text};

verus! {

/// HTTP status of a successful answer.
pub const STATUS_OK: u16 = 200;

/// HTTP status of an answer about something that does not exist.
pub const STATUS_NOT_FOUND: u16 = 404;

/// HTTP status of an answer to a failed database query.
pub const STATUS_INTERNAL_ERROR: u16 = 500;

/// Number of events a query returns when it names no limit.
pub const DEFAULT_QUERY_LIMIT: i64 = 100;

/// The body of every API answer.
#[derive(Debug)]
pub struct ApiResponse<T> {
    pub success: bool,
    pub data: Option<T>,
    pub error: Option<String>,
}

/// The query string of `GET /events`.
#[derive(Debug)]
pub struct EventQuery {
    pub player_address: Option<String>,
    pub status: Option<String>,
    pub limit: Option<i64>,
    pub offset: Option<i64>,
}

/// The body of `GET /stats`.
#[derive(Debug)]
pub struct Stats {
    pub total_events: i64,
    pub cache_size: usize,
}

/// A successful answer carrying `data`.
pub open spec fn is_success<T>(r: ApiResponse<T>, data: T) -> bool {
    r.success && r.data == Some(data) && r.error is None
}

/// A failed answer carrying the message `message`.
pub open spec fn is_failure<T>(r: ApiResponse<T>, message: Seq<char>) -> bool {
    !r.success && r.data is None && opt_view(r.error) == Some(message)
}

/// The answer to `GET /health`.
pub fn health_check() -> (r: ApiResponse<String>)
    ensures
        r.success,
        r.error is None,
        opt_view(r.data) == Some("Event Indexer is healthy"@),
{
    ApiResponse { success: true, data: Some(String::from_str("Event Indexer is healthy")), error: None }
}

/// HTTP status of an answer to a malformed request.
pub const STATUS_BAD_REQUEST: u16 = 400;

/// Largest number of events a query may return.
pub const MAX_QUERY_LIMIT: i64 = 1000;

/// The status a query's status text names, if it names one.
pub open spec fn requested_status(t: Seq<char>) -> Option<MatchStatus> {
    if t == "pending"@ {
        Some(MatchStatus::Pending)
    } else if t == "active"@ {
        Some(MatchStatus::Active)
    } else if t == "completed"@ {
        Some(MatchStatus::Completed)
    } else if t == "cancelled"@ {
        Some(MatchStatus::Cancelled)
    } else if t == "expired"@ {
        Some(MatchStatus::Expired)
    } else {
        None
    }
}

/// The limit a query asks for (100 when it names none), capped at 1000. A
/// negative limit is passed on as it is; the database reads it as no limit.
pub open spec fn effective_limit(l: Option<i64>) -> i64 {
    let asked = match l {
        Some(v) => v,
        None => DEFAULT_QUERY_LIMIT,
    };
    if asked > MAX_QUERY_LIMIT {
        MAX_QUERY_LIMIT
    } else {
        asked
    }
}

/// The message refusing the unknown status text `t`.
pub open spec fn invalid_status_message(t: Seq<char>) -> Seq<char> {
    "Invalid status filter: "@ + t
}

/// The filters of a `GET /events` query: its player and status, no dates,
/// its limit (100 by default, at most 1000) and offset. A status other than
/// `pending`, `active`, `completed`, `cancelled` or `expired` is refused with
/// a message naming it.
pub fn filters_from_query(query: EventQuery) -> (r: Result<QueryFilters, String>)
    ensures
        match query.status {
            Some(s) => match requested_status(s@) {
                None => r matches Err(m) && m@ == invalid_status_message(s@),
                Some(st) => r matches Ok(f) && f.status == Some(st),
            },
            None => r matches Ok(f) && f.status is None,
        },
        r matches Ok(f) ==> {
            &&& f.player_address == query.player_address
            &&& f.start_date is None
            &&& f.end_date is None
            &&& f.limit == Some(effective_limit(query.limit))
            &&& f.offset == query.offset
        },
{
    let status = match &query.status {
        Some(s) => {
            if *s == String::from_str("pending") {
                Some(MatchStatus::Pending)
            } else if *s == String::from_str("active") {
                Some(MatchStatus::Active)
            } else if *s == String::from_str("completed") {
                Some(MatchStatus::Completed)
            } else if *s == String::from_str("cancelled") {
                Some(MatchStatus::Cancelled)
            } else if *s == String::from_str("expired") {
                Some(MatchStatus::Expired)
            } else {
                return Err(join_text("Invalid status filter: ", s.as_str()));
            }
        },
        None => None,
    };
    let asked = match query.limit {
        Some(l) => l,
        None => DEFAULT_QUERY_LIMIT,
    };
    let limit = if asked > MAX_QUERY_LIMIT {
        MAX_QUERY_LIMIT
    } else {
        asked
    };
    Ok(
        QueryFilters {
            player_address: query.player_address,
            status,
            start_date: None,
            end_date: None,
            limit: Some(limit),
            offset: query.offset,
        },
    )
}

/// The answer to a `GET /events` query that was refused with `message`.
pub fn bad_query_response(message: String) -> (r: (u16, ApiResponse<Vec<IndexedEvent>>))
    ensures
        r.0 == STATUS_BAD_REQUEST,
        is_failure(r.1, message@),
{
    (STATUS_BAD_REQUEST, failure(message))
}

/// A failed answer with the message `message`.
fn failure<T>(message: String) -> (r: ApiResponse<T>)
    ensures
        is_failure(r, message@),
{
    ApiResponse { success: false, data: None, error: Some(message) }
}

/// The message of a failed database query.
fn database_error(e: String) -> (r: String)
    ensures
        r@ == "Database error: "@ + e@,
{
    join_text("Database error: ", e.as_str())
}

/// The answer to `GET /events` given the result of its database query:
/// the events, a not-found answer when there are none, or the database error.
pub fn events_response(result: Result<Vec<IndexedEvent>, String>) -> (r: (
    u16,
    ApiResponse<Vec<IndexedEvent>>,
))
    ensures
        match result {
            Ok(events) => if events@.len() == 0 {
                r.0 == STATUS_NOT_FOUND && is_failure(r.1, "No events found"@)
            } else {
                r.0 == STATUS_OK && is_success(r.1, events)
            },
            Err(e) => r.0 == STATUS_INTERNAL_ERROR && is_failure(r.1, "Database error: "@ + e@),
        },
{
    match result {
        Ok(events) => {
            if events.len() == 0 {
                (STATUS_NOT_FOUND, failure(String::from_str("No events found")))
            } else {
                (STATUS_OK, ApiResponse { success: true, data: Some(events), error: None })
            }
        },
        Err(e) => (STATUS_INTERNAL_ERROR, failure(database_error(e))),
    }
}

/// The answer to `GET /events/:match_id` from the cache: the cached events
/// when there are any; otherwise the database has to be asked.
pub fn cached_match_events(cached: Vec<IndexedEvent>) -> (r: Option<(u16, ApiResponse<Vec<IndexedEvent>>)>)
    ensures
        cached@.len() == 0 ==> r is None,
        cached@.len() > 0 ==> (r matches Some(a) && a.0 == STATUS_OK && is_success(a.1, cached)),
{
    if cached.len() == 0 {
        None
    } else {
        Some((STATUS_OK, ApiResponse { success: true, data: Some(cached), error: None }))
    }
}

/// The answer to `GET /events/:match_id` given the result of its database query.
pub fn match_events_response(match_id: u64, result: Result<Vec<IndexedEvent>, String>) -> (r: (
    u16,
    ApiResponse<Vec<IndexedEvent>>,
))
    ensures
        match result {
            Ok(events) => if events@.len() == 0 {
                r.0 == STATUS_NOT_FOUND && is_failure(
                    r.1,
                    "No events found for match "@ + decimal_digits(match_id as nat),
                )
            } else {
                r.0 == STATUS_OK && is_success(r.1, events)
            },
            Err(e) => r.0 == STATUS_INTERNAL_ERROR && is_failure(r.1, "Database error: "@ + e@),
        },
{
    match result {
        Ok(events) => {
            if events.len() == 0 {
                let id = decimal_u64(match_id);
                (
                    STATUS_NOT_FOUND,
                    failure(join_text("No events found for match ", id.as_str())),
                )
            } else {
                (STATUS_OK, ApiResponse { success: true, data: Some(events), error: None })
            }
        },
        Err(e) => (STATUS_INTERNAL_ERROR, failure(database_error(e))),
    }
}

/// The answer to `GET /match/:match_id` given the summary the database built.
pub fn match_info_response(match_id: u64, result: Result<Option<MatchInfo>, String>) -> (r: (
    u16,
    ApiResponse<MatchInfo>,
))
    ensures
        match result {
            Ok(Some(info)) => r.0 == STATUS_OK && is_success(r.1, info),
            Ok(None) => r.0 == STATUS_NOT_FOUND && is_failure(
                r.1,
                "Match "@ + decimal_digits(match_id as nat) + " not found"@,
            ),
            Err(e) => r.0 == STATUS_INTERNAL_ERROR && is_failure(r.1, "Database error: "@ + e@),
        },
{
    match result {
        Ok(Some(info)) => (STATUS_OK, ApiResponse { success: true, data: Some(info), error: None }),
        Ok(None) => {
            let id = decimal_u64(match_id);
            let head = join_text("Match ", id.as_str());
            (STATUS_NOT_FOUND, failure(join_text(head.as_str(), " not found")))
        },
        Err(e) => (STATUS_INTERNAL_ERROR, failure(database_error(e))),
    }
}

/// The answer to `GET /stats`: the number of stored events as the database
/// counted it, and the cache size; or the database error.
pub fn stats_response(total_events: Result<i64, String>, cache_size: usize) -> (r: (u16, ApiResponse<Stats>))
    ensures
        match total_events {
            Ok(n) => r.0 == STATUS_OK && is_success(r.1, Stats { total_events: n, cache_size }),
            Err(e) => r.0 == STATUS_INTERNAL_ERROR && is_failure(r.1, "Database error: "@ + e@),
        },
{
    match total_events {
        Ok(n) => (STATUS_OK, ApiResponse { success: true, data: Some(Stats { total_events: n, cache_size }), error: None }),
        Err(e) => (STATUS_INTERNAL_ERROR, failure(database_error(e))),
    }
}

} // verus!
