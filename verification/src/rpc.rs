use vstd::prelude::*;

use crate::models::{clone_text, IndexedEvent};
use crate::text::{contains_text, join_text, occurs_in, parse_unsigned, parsed_unsigned};

verus! {

/// The parts of an RPC event record that the indexer reads, as plain values:
/// `ledger`, `txnMeta` and `event` (with its `topics` and `data`), each
/// present only when it has the expected JSON type; array elements are kept
/// only when they are strings.
#[derive(Debug)]
pub struct RawEvent {
    pub ledger: Option<u64>,
    pub txn_meta: Option<String>,
    pub event: Option<RawEventBody>,
}

/// The `event` member of an RPC event record.
#[derive(Debug)]
pub struct RawEventBody {
    pub topics: Option<Vec<Option<String>>>,
    pub data: Option<Vec<Option<String>>>,
}

/// Why an RPC event record cannot be indexed.
#[derive(Clone, Copy, Debug, PartialEq, Eq, Structural)]
pub enum ParseError {
    MissingLedger,
    MissingEventData,
    MissingTopics,
    InvalidTopicsLength,
}

/// The fields carried by an event's data array: match id, player1, player2,
/// status, winner, stake amount, token, game id and platform.
pub type EventFields = (
    u64,
    Option<String>,
    Option<String>,
    Option<String>,
    Option<String>,
    Option<String>,
    Option<String>,
    Option<String>,
    Option<String>,
);

/// The view of an optional text.
pub open spec fn opt_view(o: Option<String>) -> Option<Seq<char>> {
    match o {
        Some(s) => Some(s@),
        None => None,
    }
}

/// Element `i` of `data`, when present and a string.
pub open spec fn text_at(data: Seq<Option<String>>, i: int) -> Option<Seq<char>> {
    if 0 <= i < data.len() {
        opt_view(data[i])
    } else {
        None
    }
}

/// The match status an event type stands for, tested in this order.
pub open spec fn status_of_type(event_type: Seq<char>) -> Option<Seq<char>> {
    if occurs_in("created"@, event_type) {
        Some("pending"@)
    } else if occurs_in("activated"@, event_type) {
        Some("active"@)
    } else if occurs_in("deposit"@, event_type) {
        Some("active"@)
    } else if occurs_in("completed"@, event_type) {
        Some("completed"@)
    } else if occurs_in("cancelled"@, event_type) {
        Some("cancelled"@)
    } else if occurs_in("expired"@, event_type) {
        Some("expired"@)
    } else {
        None
    }
}

/// The winner an event of type `event_type` reports: element 1 of its data
/// when it is a completion event.
pub open spec fn winner_of_type(event_type: Seq<char>, data: Seq<Option<String>>) -> Option<Seq<char>> {
    if !occurs_in("created"@, event_type) && !occurs_in("activated"@, event_type) && !occurs_in(
        "deposit"@,
        event_type,
    ) && occurs_in("completed"@, event_type) {
        text_at(data, 1)
    } else {
        None
    }
}

/// The match id in an event's data: its first element read as a `u64`, or 0.
pub open spec fn match_id_of(data: Seq<Option<String>>) -> u64 {
    match text_at(data, 0) {
        Some(s) => match parsed_unsigned(s, u64::MAX as int) {
            Some(v) => v as u64,
            None => 0,
        },
        None => 0,
    }
}

/// `f` holds the fields that an event of type `event_type` carries in `data`.
pub open spec fn fields_of(event_type: Seq<char>, data: Seq<Option<String>>, f: EventFields) -> bool {
    &&& f.0 == match_id_of(data)
    &&& opt_view(f.1) == text_at(data, 1)
    &&& opt_view(f.2) == text_at(data, 2)
    &&& opt_view(f.3) == status_of_type(event_type)
    &&& opt_view(f.4) == winner_of_type(event_type, data)
    &&& opt_view(f.5) == text_at(data, 3)
    &&& opt_view(f.6) == text_at(data, 4)
    &&& opt_view(f.7) == text_at(data, 5)
    &&& opt_view(f.8) == text_at(data, 6)
}

/// A copy of element `i` of `data`, when present and a string.
fn text_at_exec(data: &Vec<Option<String>>, i: usize) -> (r: Option<String>)
    ensures
        opt_view(r) == text_at(data@, i as int),
{
    if i < data.len() {
        clone_text(&data[i])
    } else {
        None
    }
}

/// Read the fields an event of type `event_type` carries in `data`.
pub fn parse_event_data(event_type: &str, data: &Vec<Option<String>>) -> (f: EventFields)
    ensures
        fields_of(event_type@, data@, f),
{
    let match_id: u64 = match text_at_exec(data, 0) {
        Some(s) => match parse_unsigned(s.as_str(), u64::MAX) {
            Some(v) => v,
            None => 0,
        },
        None => 0,
    };
    let (status, winner) = if contains_text(event_type, "created") {
        (Some(String::from_str("pending")), None)
    } else if contains_text(event_type, "activated") {
        (Some(String::from_str("active")), None)
    } else if contains_text(event_type, "deposit") {
        (Some(String::from_str("active")), None)
    } else if contains_text(event_type, "completed") {
        (Some(String::from_str("completed")), text_at_exec(data, 1))
    } else if contains_text(event_type, "cancelled") {
        (Some(String::from_str("cancelled")), None)
    } else if contains_text(event_type, "expired") {
        (Some(String::from_str("expired")), None)
    } else {
        (None, None)
    };
    (
        match_id,
        text_at_exec(data, 1),
        text_at_exec(data, 2),
        status,
        winner,
        text_at_exec(data, 3),
        text_at_exec(data, 4),
        text_at_exec(data, 5),
        text_at_exec(data, 6),
    )
}

/// Topic `i` of `topics` when it is a string, else `"unknown"`.
pub open spec fn topic_or_unknown(topics: Seq<Option<String>>, i: int) -> Seq<char> {
    match text_at(topics, i) {
        Some(t) => t,
        None => "unknown"@,
    }
}

/// Why `raw` cannot be indexed, if it cannot.
pub open spec fn raw_event_error(raw: RawEvent) -> Option<ParseError> {
    if raw.ledger is None {
        Some(ParseError::MissingLedger)
    } else if raw.event is None {
        Some(ParseError::MissingEventData)
    } else if raw.event->0.topics is None {
        Some(ParseError::MissingTopics)
    } else if raw.event->0.topics->0@.len() < 2 {
        Some(ParseError::InvalidTopicsLength)
    } else {
        None
    }
}

/// The event type of a well-formed `raw`: `namespace:name` from its first two topics.
pub open spec fn event_type_of(raw: RawEvent) -> Seq<char> {
    let topics = raw.event->0.topics->0@;
    topic_or_unknown(topics, 0) + ":"@ + topic_or_unknown(topics, 1)
}

/// The data array of a well-formed `raw`, empty when absent.
pub open spec fn data_of(raw: RawEvent) -> Seq<Option<String>> {
    match raw.event->0.data {
        Some(d) => d@,
        None => Seq::empty(),
    }
}

/// `e` is what indexing the well-formed `raw` under `id` at `timestamp` gives.
pub open spec fn indexed_from(raw: RawEvent, id: String, timestamp: i64, e: IndexedEvent) -> bool {
    let data = data_of(raw);
    let t = event_type_of(raw);
    &&& e.id == id
    &&& e.ledger_sequence == raw.ledger->0 as u32
    &&& e.event_type@ == t
    &&& fields_of(
        t,
        data,
        (
            e.match_id,
            e.player1,
            e.player2,
            e.status,
            e.winner,
            e.stake_amount,
            e.token,
            e.game_id,
            e.platform,
        ),
    )
    &&& e.timestamp == timestamp
    &&& opt_view(e.txn_hash) == Some(
        match raw.txn_meta {
            Some(t) => t@,
            None => Seq::<char>::empty(),
        },
    )
}

/// Build the indexed event of `raw` under `id` at `timestamp`.
pub fn index_raw_event(raw: &RawEvent, id: String, timestamp: i64) -> (r: Result<IndexedEvent, ParseError>)
    ensures
        match raw_event_error(*raw) {
            Some(err) => r == Err::<IndexedEvent, ParseError>(err),
            None => r matches Ok(e) && indexed_from(*raw, id, timestamp, e),
        },
{
    let ledger = match raw.ledger {
        Some(l) => l,
        None => return Err(ParseError::MissingLedger),
    };
    let ledger_sequence = ledger as u32;
    let txn_hash = match &raw.txn_meta {
        Some(t) => t.clone(),
        None => String::new(),
    };
    let body = match &raw.event {
        Some(b) => b,
        None => return Err(ParseError::MissingEventData),
    };
    let topics = match &body.topics {
        Some(t) => t,
        None => return Err(ParseError::MissingTopics),
    };
    if topics.len() < 2 {
        return Err(ParseError::InvalidTopicsLength);
    }
    proof {
        reveal_strlit("unknown");
    }
    let namespace = match text_at_exec(topics, 0) {
        Some(t) => t,
        None => String::from_str("unknown"),
    };
    let name = match text_at_exec(topics, 1) {
        Some(t) => t,
        None => String::from_str("unknown"),
    };
    let prefix = join_text(namespace.as_str(), ":");
    let event_type = join_text(prefix.as_str(), name.as_str());
    let empty: Vec<Option<String>> = Vec::new();
    let data = match &body.data {
        Some(d) => d,
        None => &empty,
    };
    let (match_id, player1, player2, status, winner, stake_amount, token, game_id, platform) =
        parse_event_data(event_type.as_str(), data);
    Ok(
        IndexedEvent {
            id,
            ledger_sequence,
            match_id,
            event_type,
            player1,
            player2,
            status,
            winner,
            stake_amount,
            token,
            game_id,
            platform,
            timestamp,
            txn_hash: Some(txn_hash),
        },
    )
}

/// Calls `uuid::Uuid::new_v4` and renders it with `to_string`: a fresh
/// random UUID in its hyphenated form, which is 36 characters long. Nothing
/// more is promised of its value.
#[verifier::external_body]
fn new_event_id() -> (id: String)
    ensures
        id@.len() == 36,
{
    uuid::Uuid::new_v4().to_string()
}

/// Calls `chrono::Utc::now` and reads `timestamp_micros`: the current time in
/// microseconds since the UNIX epoch. Nothing is promised of its value.
#[verifier::external_body]
fn now_micros() -> i64 {
    chrono::Utc::now().timestamp_micros()
}

/// Index an RPC event record under a fresh random id, stamped with the
/// current time.
pub fn parse_event(raw: &RawEvent) -> (r: Result<IndexedEvent, ParseError>)
    ensures
        match raw_event_error(*raw) {
            Some(err) => r == Err::<IndexedEvent, ParseError>(err),
            None => r matches Ok(e) && e.id@.len() == 36 && indexed_from(*raw, e.id, e.timestamp, e),
        },
{
    let id = new_event_id();
    let timestamp = now_micros();
    index_raw_event(raw, id, timestamp)
}

/// The well-formed records of `raws`, in their order.
pub open spec fn well_formed_records(raws: Seq<RawEvent>) -> Seq<RawEvent>
    decreases raws.len(),
{
    if raws.len() == 0 {
        Seq::empty()
    } else {
        let rest = well_formed_records(raws.drop_last());
        if raw_event_error(raws.last()) is None {
            rest.push(raws.last())
        } else {
            rest
        }
    }
}

/// Index every well-formed record of `raws`, in order, skipping the others.
pub fn parse_events(raws: &Vec<RawEvent>) -> (r: Vec<IndexedEvent>)
    ensures
        r@.len() == well_formed_records(raws@).len(),
        forall|k: int|
            0 <= k < r@.len() ==> {
                let e = #[trigger] r@[k];
                &&& e.id@.len() == 36
                &&& indexed_from(well_formed_records(raws@)[k], e.id, e.timestamp, e)
            },
{
    let mut out: Vec<IndexedEvent> = Vec::new();
    let n = raws.len();
    let mut i: usize = 0;
    proof {
        assert(raws@.take(0) =~= Seq::<RawEvent>::empty());
    }
    while i < n
        invariant
            n == raws@.len(),
            i <= n,
            out@.len() == well_formed_records(raws@.take(i as int)).len(),
            forall|k: int|
                0 <= k < out@.len() ==> {
                    let e = #[trigger] out@[k];
                    &&& e.id@.len() == 36
                    &&& indexed_from(well_formed_records(raws@.take(i as int))[k], e.id, e.timestamp, e)
                },
        decreases n - i,
    {
        let ghost before = well_formed_records(raws@.take(i as int));
        proof {
            assert(raws@.take(i as int + 1).drop_last() =~= raws@.take(i as int));
            assert(raws@.take(i as int + 1).last() == raws@[i as int]);
        }
        match parse_event(&raws[i]) {
            Ok(e) => {
                out.push(e);
            },
            Err(_) => {},
        }
        i = i + 1;
        proof {
            let after = well_formed_records(raws@.take(i as int));
            if raw_event_error(raws@[i - 1]) is None {
                assert(after == before.push(raws@[i - 1]));
            } else {
                assert(after == before);
            }
        }
    }
    proof {
        assert(raws@.take(n as int) =~= raws@);
    }
    out
}

/// The ledger a poll has reached: that of the last event indexed, if any.
pub fn polled_ledger(indexed: &Vec<IndexedEvent>) -> (r: Option<u32>)
    ensures
        r == if indexed@.len() == 0 {
            None
        } else {
            Some(indexed@.last().ledger_sequence)
        },
{
    if indexed.len() == 0 {
        None
    } else {
        Some(indexed[indexed.len() - 1].ledger_sequence)
    }
}

/// The ledger the poller continues from: the one a poll reached, or the
/// earlier one when the poll indexed nothing.
pub fn next_start_ledger(last: Option<u32>, polled: Option<u32>) -> (r: Option<u32>)
    ensures
        r == match polled {
            Some(l) => Some(l),
            None => last,
        },
{
    match polled {
        Some(l) => Some(l),
        None => last,
    }
}

} // verus!
