use vstd::prelude::*;

use crate::models::{IndexedEvent, MatchInfo, MatchStatus, QueryFilters, Winner};
use crate::rpc::opt_view;
use crate::text::{contains_text, decimal_i64, decimal_text, occurs_in};

verus! {

/// The columns every event query selects, in the order rows are read back.
pub const EVENT_COLUMNS: &'static str = "SELECT id, ledger_sequence, match_id, event_type, player1, player2, status,
                    winner, stake_amount, token, game_id, platform, timestamp, txn_hash
             FROM events";

/// A value bound to a placeholder of an event query.
#[derive(Debug)]
pub enum QueryParam {
    /// A text value.
    Text(String),
    /// A moment, in microseconds since the UNIX epoch, bound in RFC 3339 form.
    Time(i64),
}

/// The text a status filter is stored as.
pub open spec fn status_text(s: MatchStatus) -> Seq<char> {
    match s {
        MatchStatus::Pending => "pending"@,
        MatchStatus::Active => "active"@,
        MatchStatus::Completed => "completed"@,
        MatchStatus::Cancelled => "cancelled"@,
        MatchStatus::Expired => "expired"@,
    }
}

/// The status a stored status text stands for; anything unknown is pending.
pub open spec fn status_from_text(t: Option<Seq<char>>) -> MatchStatus {
    match t {
        Some(s) => if s == "active"@ {
            MatchStatus::Active
        } else if s == "completed"@ {
            MatchStatus::Completed
        } else if s == "cancelled"@ {
            MatchStatus::Cancelled
        } else if s == "expired"@ {
            MatchStatus::Expired
        } else {
            MatchStatus::Pending
        },
        None => MatchStatus::Pending,
    }
}

/// The winner a stored winner text stands for, if any.
pub open spec fn winner_from_text(t: Option<Seq<char>>) -> Option<Winner> {
    match t {
        Some(s) => if s == "player1"@ {
            Some(Winner::Player1)
        } else if s == "player2"@ {
            Some(Winner::Player2)
        } else if s == "draw"@ {
            Some(Winner::Draw)
        } else {
            None
        },
        None => None,
    }
}

/// A filter clause: `clause` when the filter is given, nothing otherwise.
pub open spec fn clause_if(given: bool, clause: Seq<char>) -> Seq<char> {
    if given {
        clause
    } else {
        Seq::empty()
    }
}

/// A numeric suffix such as ` LIMIT 10`, when the number is given.
pub open spec fn number_clause(n: Option<i64>, keyword: Seq<char>) -> Seq<char> {
    match n {
        Some(v) => keyword + decimal_text(v as int),
        None => Seq::empty(),
    }
}

/// The SQL text of an event query with `filters`.
pub open spec fn query_text(filters: QueryFilters) -> Seq<char> {
    EVENT_COLUMNS@ + " WHERE 1=1"@ + clause_if(
        filters.player_address is Some,
        " AND (player1 = ? OR player2 = ?)"@,
    ) + clause_if(filters.status is Some, " AND status = ?"@) + clause_if(
        filters.start_date is Some,
        " AND timestamp >= ?"@,
    ) + clause_if(filters.end_date is Some, " AND timestamp <= ?"@)
        + " ORDER BY ledger_sequence DESC"@ + number_clause(filters.limit, " LIMIT "@)
        + number_clause(filters.offset, " OFFSET "@)
}

/// The view of a query parameter: a text, or a moment.
pub open spec fn param_view(p: QueryParam) -> Result<Seq<char>, i64> {
    match p {
        QueryParam::Text(s) => Ok(s@),
        QueryParam::Time(t) => Err(t),
    }
}

/// The parameters of an event query with `filters`, in placeholder order.
pub open spec fn query_params(filters: QueryFilters) -> Seq<Result<Seq<char>, i64>> {
    (match filters.player_address {
        Some(p) => seq![Ok(p@), Ok(p@)],
        None => Seq::empty(),
    }) + (match filters.status {
        Some(s) => seq![Ok(status_text(s))],
        None => Seq::empty(),
    }) + (match filters.start_date {
        Some(t) => seq![Err(t)],
        None => Seq::empty(),
    }) + (match filters.end_date {
        Some(t) => seq![Err(t)],
        None => Seq::empty(),
    })
}

/// The text of status `s`.
fn status_string(s: MatchStatus) -> (r: String)
    ensures
        r@ == status_text(s),
{
    match s {
        MatchStatus::Pending => String::from_str("pending"),
        MatchStatus::Active => String::from_str("active"),
        MatchStatus::Completed => String::from_str("completed"),
        MatchStatus::Cancelled => String::from_str("cancelled"),
        MatchStatus::Expired => String::from_str("expired"),
    }
}

/// Append `clause` to `query` when `given`.
fn push_clause(query: &mut String, given: bool, clause: &str)
    ensures
        final(query)@ == old(query)@ + clause_if(given, clause@),
{
    if given {
        query.append(clause);
    } else {
        assert(old(query)@ + clause_if(given, clause@) =~= old(query)@);
    }
}

/// Append `keyword` and the decimal text of `n` to `query` when `n` is given.
fn push_number(query: &mut String, n: Option<i64>, keyword: &str)
    ensures
        final(query)@ == old(query)@ + number_clause(n, keyword@),
{
    match n {
        Some(v) => {
            let digits = decimal_i64(v);
            let ghost before = query@;
            query.append(keyword);
            query.append(digits.as_str());
            assert(query@ =~= before + (keyword@ + decimal_text(v as int)));
        },
        None => {
            assert(old(query)@ + number_clause(n, keyword@) =~= old(query)@);
        },
    }
}

/// The placeholder values of an event query with `filters`.
fn query_values(filters: &QueryFilters) -> (params: Vec<QueryParam>)
    ensures
        params@.map_values(|p: QueryParam| param_view(p)) == query_params(*filters),
{
    let mut params: Vec<QueryParam> = Vec::new();
    let ghost mut expected: Seq<Result<Seq<char>, i64>> = Seq::empty();
    match &filters.player_address {
        Some(player) => {
            params.push(QueryParam::Text(player.clone()));
            params.push(QueryParam::Text(player.clone()));
            proof {
                expected = seq![Ok(player@), Ok(player@)];
            }
        },
        None => {},
    }
    assert(params@.map_values(|p: QueryParam| param_view(p)) =~= expected);
    let ghost e1 = expected;
    match filters.status {
        Some(status) => {
            params.push(QueryParam::Text(status_string(status)));
            proof {
                expected = expected.push(Ok(status_text(status)));
            }
        },
        None => {},
    }
    assert(params@.map_values(|p: QueryParam| param_view(p)) =~= expected);
    match filters.start_date {
        Some(start) => {
            params.push(QueryParam::Time(start));
            proof {
                expected = expected.push(Err(start));
            }
        },
        None => {},
    }
    assert(params@.map_values(|p: QueryParam| param_view(p)) =~= expected);
    match filters.end_date {
        Some(end) => {
            params.push(QueryParam::Time(end));
            proof {
                expected = expected.push(Err(end));
            }
        },
        None => {},
    }
    assert(params@.map_values(|p: QueryParam| param_view(p)) =~= expected);
    assert(expected =~= query_params(*filters));
    params
}

/// Build the SQL text and placeholder values of an event query: events
/// matching every given filter, newest ledger first, with the given limit
/// and offset.
pub fn build_events_query(filters: &QueryFilters) -> (r: (String, Vec<QueryParam>))
    ensures
        r.0@ == query_text(*filters),
        r.1@.map_values(|p: QueryParam| param_view(p)) == query_params(*filters),
{
    let mut query = String::from_str(EVENT_COLUMNS);
    query.append(" WHERE 1=1");
    push_clause(&mut query, filters.player_address.is_some(), " AND (player1 = ? OR player2 = ?)");
    push_clause(&mut query, filters.status.is_some(), " AND status = ?");
    push_clause(&mut query, filters.start_date.is_some(), " AND timestamp >= ?");
    push_clause(&mut query, filters.end_date.is_some(), " AND timestamp <= ?");
    query.append(" ORDER BY ledger_sequence DESC");
    push_number(&mut query, filters.limit, " LIMIT ");
    push_number(&mut query, filters.offset, " OFFSET ");
    let params = query_values(filters);
    (query, params)
}

/// The first event of `events` that records a creation, if any.
pub open spec fn creation_index(events: Seq<IndexedEvent>) -> int
    decreases events.len(),
{
    if events.len() == 0 {
        0
    } else if occurs_in("created"@, events[0].event_type@) {
        0
    } else {
        1 + creation_index(events.drop_first())
    }
}

/// What `creation_index` finds: a creation event with none before it, or nothing.
proof fn lemma_creation_index(events: Seq<IndexedEvent>, i: int)
    requires
        0 <= i <= events.len(),
        i < events.len() ==> occurs_in("created"@, events[i].event_type@),
        forall|j: int| 0 <= j < i ==> !occurs_in("created"@, #[trigger] events[j].event_type@),
    ensures
        creation_index(events) == i,
    decreases events.len(),
{
    if events.len() > 0 && i > 0 {
        assert(!occurs_in("created"@, events[0].event_type@));
        assert forall|j: int| 0 <= j < i - 1 implies !occurs_in(
            "created"@,
            #[trigger] events.drop_first()[j].event_type@,
        ) by {
            assert(events.drop_first()[j] == events[j + 1]);
        }
        lemma_creation_index(events.drop_first(), i - 1);
    }
}

/// The view of an optional text, or the empty text.
pub open spec fn text_or_empty(o: Option<String>) -> Seq<char> {
    match o {
        Some(s) => s@,
        None => Seq::empty(),
    }
}

/// `info` is the match information of `match_id` built from its `events`
/// (in ledger order), of which `created` is the creation event.
pub open spec fn match_info_from(match_id: u64, events: Seq<IndexedEvent>, created: IndexedEvent, info: MatchInfo) -> bool {
    let latest = events.last();
    &&& info.match_id == match_id
    &&& info.player1@ == text_or_empty(created.player1)
    &&& info.player2@ == text_or_empty(created.player2)
    &&& info.status == status_from_text(opt_view(latest.status))
    &&& info.winner == winner_from_text(opt_view(latest.winner))
    &&& info.stake_amount@ == text_or_empty(created.stake_amount)
    &&& info.token@ == text_or_empty(created.token)
    &&& info.game_id@ == text_or_empty(created.game_id)
    &&& info.platform@ == text_or_empty(created.platform)
    &&& info.created_ledger == created.ledger_sequence
    &&& info.completed_ledger == Some(latest.ledger_sequence)
    &&& info.events@ == events
}

/// A copy of an optional text, or the empty text.
fn text_or_default(o: &Option<String>) -> (r: String)
    ensures
        r@ == text_or_empty(*o),
{
    match o {
        Some(s) => s.clone(),
        None => String::new(),
    }
}

/// Whether `s` is the text `lit`.
fn text_is(s: &String, lit: &str) -> (r: bool)
    ensures
        r == (s@ == lit@),
{
    *s == String::from_str(lit)
}

/// The status a stored status text stands for.
fn parse_status(t: &Option<String>) -> (r: MatchStatus)
    ensures
        r == status_from_text(opt_view(*t)),
{
    match t {
        Some(s) => if text_is(s, "active") {
            MatchStatus::Active
        } else if text_is(s, "completed") {
            MatchStatus::Completed
        } else if text_is(s, "cancelled") {
            MatchStatus::Cancelled
        } else if text_is(s, "expired") {
            MatchStatus::Expired
        } else {
            MatchStatus::Pending
        },
        None => MatchStatus::Pending,
    }
}

/// The winner a stored winner text stands for.
fn parse_winner(t: &Option<String>) -> (r: Option<Winner>)
    ensures
        r == winner_from_text(opt_view(*t)),
{
    match t {
        Some(s) => if text_is(s, "player1") {
            Some(Winner::Player1)
        } else if text_is(s, "player2") {
            Some(Winner::Player2)
        } else if text_is(s, "draw") {
            Some(Winner::Draw)
        } else {
            None
        },
        None => None,
    }
}

/// Summarize a match from its events in ledger order: players, stake, token,
/// game and platform from its creation event; status, winner and completion
/// ledger from its latest event. A match without events, or without a
/// creation event, has no summary.
pub fn build_match_info(match_id: u64, events: Vec<IndexedEvent>) -> (r: Option<MatchInfo>)
    ensures
        ({
            let es = events@;
            let c = creation_index(es);
            if es.len() == 0 || c >= es.len() {
                r is None
            } else {
                r matches Some(info) && match_info_from(match_id, es, es[c], info)
            }
        }),
{
    let n = events.len();
    if n == 0 {
        return None;
    }
    let mut c: usize = 0;
    while c < n
        invariant
            n == events@.len(),
            c <= n,
            forall|j: int| 0 <= j < c ==> !occurs_in("created"@, #[trigger] events@[j].event_type@),
        ensures
            c <= n,
            forall|j: int| 0 <= j < c ==> !occurs_in("created"@, #[trigger] events@[j].event_type@),
            c < n ==> occurs_in("created"@, events@[c as int].event_type@),
        decreases n - c,
    {
        if contains_text(events[c].event_type.as_str(), "created") {
            break;
        }
        c = c + 1;
    }
    proof {
        lemma_creation_index(events@, c as int);
    }
    if c == n {
        return None;
    }
    let created = &events[c];
    let latest = &events[n - 1];
    let info_status = parse_status(&latest.status);
    let info_winner = parse_winner(&latest.winner);
    let player1 = text_or_default(&created.player1);
    let player2 = text_or_default(&created.player2);
    let stake_amount = text_or_default(&created.stake_amount);
    let token = text_or_default(&created.token);
    let game_id = text_or_default(&created.game_id);
    let platform = text_or_default(&created.platform);
    let created_ledger = created.ledger_sequence;
    let completed_ledger = Some(latest.ledger_sequence);
    Some(
        MatchInfo {
            match_id,
            player1,
            player2,
            status: info_status,
            winner: info_winner,
            stake_amount,
            token,
            game_id,
            platform,
            created_ledger,
            completed_ledger,
            events,
        },
    )
}

} // verus!
