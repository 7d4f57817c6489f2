use checkmate::api::{
    cached_match_events, events_response, filters_from_query, health_check, match_events_response,
    match_info_response, stats_response, bad_query_response, EventQuery, STATUS_BAD_REQUEST, STATUS_INTERNAL_ERROR, STATUS_NOT_FOUND,
    STATUS_OK,
};
use checkmate::cache::EventCache;
use checkmate::config::{Config, ConfigError, Settings};
use checkmate::db::{build_events_query, build_match_info, QueryParam, EVENT_COLUMNS};
use checkmate::models::{IndexedEvent, MatchStatus, QueryFilters, Winner};
use checkmate::rpc::{
    index_raw_event, next_start_ledger, parse_event, parse_event_data, parse_events, polled_ledger,
    ParseError, RawEvent, RawEventBody,
};

fn event(id: &str, match_id: u64, ledger: u32, event_type: &str) -> IndexedEvent {
    IndexedEvent {
        id: id.to_string(),
        ledger_sequence: ledger,
        match_id,
        event_type: event_type.to_string(),
        player1: None,
        player2: None,
        status: None,
        winner: None,
        stake_amount: None,
        token: None,
        game_id: None,
        platform: None,
        timestamp: 0,
        txn_hash: None,
    }
}

fn texts(items: &[Option<&str>]) -> Vec<Option<String>> {
    items.iter().map(|t| t.map(|s| s.to_string())).collect()
}

fn raw(ledger: Option<u64>, topics: Option<Vec<Option<String>>>, data: Option<Vec<Option<String>>>) -> RawEvent {
    RawEvent {
        ledger,
        txn_meta: Some("meta".to_string()),
        event: Some(RawEventBody { topics, data }),
    }
}

fn settings(contract: Option<&str>, poll: Option<&str>) -> Settings {
    Settings {
        rpc_url: None,
        contract_escrow: contract.map(|s| s.to_string()),
        db_path: None,
        bind_addr: None,
        port: None,
        cache_size: None,
        poll_interval: poll.map(|s| s.to_string()),
        log_level: None,
    }
}

const VALID_CONTRACT: &str = "CABD7H7QWXSTDZ6YPMPZRJ2FLGDWP5AYWLF5PYQRB5PQV6PDBGFPMTD";

#[test]
fn valid_56_char_contract_address_is_accepted() {
    assert!(Config::from_settings(settings(Some(VALID_CONTRACT), Some("5"))).is_ok());
}

#[test]
fn short_contract_address_is_rejected() {
    assert!(Config::from_settings(settings(Some("CSHORT"), Some("5"))).is_err());
}

#[test]
fn empty_contract_address_is_rejected() {
    assert!(Config::from_settings(settings(Some(""), Some("5"))).is_err());
}

#[test]
fn poll_interval_zero_is_rejected() {
    assert!(Config::from_settings(settings(Some(VALID_CONTRACT), Some("0"))).is_err());
}

#[test]
fn poll_interval_61_is_rejected() {
    assert!(Config::from_settings(settings(Some(VALID_CONTRACT), Some("61"))).is_err());
}

#[test]
fn poll_interval_1_is_accepted() {
    assert!(Config::from_settings(settings(Some(VALID_CONTRACT), Some("1"))).is_ok());
}

#[test]
fn poll_interval_60_is_accepted() {
    assert!(Config::from_settings(settings(Some(VALID_CONTRACT), Some("60"))).is_ok());
}

#[test]
fn config_defaults_and_errors() {
    let c = Config::from_settings(settings(Some(VALID_CONTRACT), None)).unwrap();
    assert_eq!(c.rpc_url, "https://soroban-testnet.stellar.org");
    assert_eq!(c.db_path, "./events.db");
    assert_eq!(c.bind_addr, "127.0.0.1");
    assert_eq!(c.bind_port, 8080);
    assert_eq!(c.cache_size, 10000);
    assert_eq!(c.poll_interval_secs, 5);
    assert_eq!(c.log_level, "info");
    assert_eq!(Config::from_settings(settings(None, None)).unwrap_err(), ConfigError::MissingContractEscrow);
    let bad = "CABD7H7QWXSTDZ6YPMPZRJ2FLGDWP5AYWLF5PYQRB5PQV6PDBGFPMTD-";
    assert_eq!(Config::from_settings(settings(Some(bad), None)).unwrap_err(), ConfigError::InvalidContractEscrow);
    assert_eq!(Config::from_settings(settings(Some(VALID_CONTRACT), Some("x"))).unwrap_err(), ConfigError::InvalidPollInterval);
    let mut s = settings(Some(VALID_CONTRACT), None);
    s.port = Some("70000".to_string());
    assert_eq!(Config::from_settings(s).unwrap_err(), ConfigError::InvalidPort);
    let mut s = settings(Some(VALID_CONTRACT), None);
    s.cache_size = Some("+42".to_string());
    assert_eq!(Config::from_settings(s).unwrap().cache_size, 42);
    assert_eq!(Config::from_settings(settings(Some(VALID_CONTRACT), Some("0"))).unwrap_err(), ConfigError::PollIntervalOutOfRange);
}

#[test]
fn test_event_filtering() {
    let filters = filters_from_query(EventQuery {
        player_address: Some("GPLAYER".to_string()),
        status: Some("completed".to_string()),
        limit: None,
        offset: Some(5),
    })
    .unwrap();
    assert_eq!(filters.status, Some(MatchStatus::Completed));
    assert_eq!(filters.limit, Some(100));
    let (query, params) = build_events_query(&filters);
    let expected = format!(
        "{} WHERE 1=1 AND (player1 = ? OR player2 = ?) AND status = ? ORDER BY ledger_sequence DESC LIMIT 100 OFFSET 5",
        EVENT_COLUMNS
    );
    assert_eq!(query, expected);
    assert_eq!(params.len(), 3);
    assert!(matches!(&params[0], QueryParam::Text(p) if p == "GPLAYER"));
    assert!(matches!(&params[2], QueryParam::Text(p) if p == "completed"));
}

#[test]
fn query_with_dates_and_negative_limit() {
    let filters = QueryFilters {
        player_address: None,
        status: None,
        start_date: Some(10),
        end_date: Some(20),
        limit: Some(-3),
        offset: None,
    };
    let (query, params) = build_events_query(&filters);
    assert_eq!(
        query,
        format!("{} WHERE 1=1 AND timestamp >= ? AND timestamp <= ? ORDER BY ledger_sequence DESC LIMIT -3", EVENT_COLUMNS)
    );
    assert!(matches!(params[0], QueryParam::Time(10)));
    assert!(matches!(params[1], QueryParam::Time(20)));
}

#[test]
fn unknown_status_filter_is_refused() {
    let refused = filters_from_query(EventQuery { player_address: None, status: Some("weird".to_string()), limit: Some(7), offset: None });
    assert_eq!(refused.unwrap_err(), "Invalid status filter: weird");
    let (status, body) = bad_query_response("Invalid status filter: weird".to_string());
    assert_eq!(status, STATUS_BAD_REQUEST);
    assert!(!body.success);
    assert!(body.data.is_none());
    let pending = filters_from_query(EventQuery { player_address: None, status: Some("pending".to_string()), limit: Some(7), offset: None }).unwrap();
    assert_eq!(pending.status, Some(MatchStatus::Pending));
    assert_eq!(pending.limit, Some(7));
}

#[test]
fn query_limit_is_capped() {
    let big = filters_from_query(EventQuery { player_address: None, status: None, limit: Some(5000), offset: None }).unwrap();
    assert_eq!(big.limit, Some(1000));
    let exact = filters_from_query(EventQuery { player_address: None, status: None, limit: Some(1000), offset: None }).unwrap();
    assert_eq!(exact.limit, Some(1000));
    let negative = filters_from_query(EventQuery { player_address: None, status: None, limit: Some(-1), offset: None }).unwrap();
    assert_eq!(negative.limit, Some(-1));
}

#[test]
fn test_event_indexing() {
    let data = texts(&[Some("42"), Some("GP1"), Some("GP2"), Some("100"), Some("CTOKEN"), Some("abcd1234"), Some("lichess")]);
    let r = raw(Some(77), Some(texts(&[Some("match"), Some("created")])), Some(data));
    let e = index_raw_event(&r, "id-1".to_string(), 5).unwrap();
    assert_eq!(e.event_type, "match:created");
    assert_eq!(e.match_id, 42);
    assert_eq!(e.ledger_sequence, 77);
    assert_eq!(e.status.as_deref(), Some("pending"));
    assert_eq!(e.winner, None);
    assert_eq!(e.player1.as_deref(), Some("GP1"));
    assert_eq!(e.platform.as_deref(), Some("lichess"));
    assert_eq!(e.txn_hash.as_deref(), Some("meta"));
    assert_eq!(e.timestamp, 5);
    let fresh = parse_event(&r).unwrap();
    assert_eq!(fresh.id.len(), 36);
    assert_eq!(fresh.event_type, "match:created");
}

#[test]
fn completed_event_carries_winner() {
    let data = texts(&[Some("7"), Some("player2")]);
    let (match_id, p1, _, status, winner, stake, ..) = parse_event_data("match:completed", &data);
    assert_eq!(match_id, 7);
    assert_eq!(p1.as_deref(), Some("player2"));
    assert_eq!(status.as_deref(), Some("completed"));
    assert_eq!(winner.as_deref(), Some("player2"));
    assert_eq!(stake, None);
    let (match_id, _, _, status, winner, ..) = parse_event_data("match:other", &texts(&[Some("x")]));
    assert_eq!(match_id, 0);
    assert_eq!(status, None);
    assert_eq!(winner, None);
}

#[test]
fn malformed_events_are_rejected() {
    assert_eq!(index_raw_event(&raw(None, Some(texts(&[Some("a"), Some("b")])), None), "i".to_string(), 0).unwrap_err(), ParseError::MissingLedger);
    let no_body = RawEvent { ledger: Some(1), txn_meta: None, event: None };
    assert_eq!(index_raw_event(&no_body, "i".to_string(), 0).unwrap_err(), ParseError::MissingEventData);
    assert_eq!(index_raw_event(&raw(Some(1), None, None), "i".to_string(), 0).unwrap_err(), ParseError::MissingTopics);
    assert_eq!(index_raw_event(&raw(Some(1), Some(texts(&[Some("a")])), None), "i".to_string(), 0).unwrap_err(), ParseError::InvalidTopicsLength);
    let odd = index_raw_event(&raw(Some(1), Some(texts(&[None, Some("expired")])), None), "i".to_string(), 0).unwrap();
    assert_eq!(odd.event_type, "unknown:expired");
    assert_eq!(odd.status.as_deref(), Some("expired"));
    assert_eq!(odd.match_id, 0);
}

#[test]
fn poll_cursor_follows_last_indexed_event() {
    let raws = vec![
        raw(Some(5), Some(texts(&[Some("m"), Some("created")])), None),
        raw(None, None, None),
        raw(Some(9), Some(texts(&[Some("m"), Some("activated")])), None),
    ];
    let parsed = parse_events(&raws);
    assert_eq!(parsed.len(), 2);
    assert_eq!(polled_ledger(&parsed), Some(9));
    assert_eq!(polled_ledger(&Vec::new()), None);
    assert_eq!(next_start_ledger(Some(3), None), Some(3));
    assert_eq!(next_start_ledger(Some(3), Some(9)), Some(9));
}

#[test]
fn test_cache_operations() {
    let mut cache = EventCache::new(2);
    cache.insert(event("a", 1, 10, "m:created"));
    cache.insert(event("b", 1, 11, "m:activated"));
    assert_eq!(cache.size(), 2);
    assert_eq!(cache.get("a").unwrap().ledger_sequence, 10);
    let by_match: Vec<String> = cache.get_by_match(1).into_iter().map(|e| e.id).collect();
    assert_eq!(by_match, vec!["a".to_string(), "b".to_string()]);
    cache.insert(event("c", 2, 12, "m:created"));
    assert_eq!(cache.size(), 2);
    assert!(cache.get("a").is_none());
    assert_eq!(cache.get_by_match(1).len(), 1);
    cache.remove("b");
    assert!(cache.get("b").is_none());
    assert!(cache.get_by_match(1).is_empty());
    assert_eq!(cache.get_by_match(2).len(), 1);
    cache.clear();
    assert_eq!(cache.size(), 0);
    assert!(cache.get_by_match(2).is_empty());
}

#[test]
fn cache_reinsert_replaces_event() {
    let mut cache = EventCache::new(10);
    cache.insert(event("a", 1, 10, "m:created"));
    cache.insert(event("a", 1, 20, "m:created"));
    assert_eq!(cache.size(), 1);
    assert_eq!(cache.get("a").unwrap().ledger_sequence, 20);
    assert_eq!(cache.get_by_match(1).len(), 2);
    assert!(cache.get("zzz").is_none());
}

#[test]
fn cache_evicts_least_recently_used() {
    let mut cache = EventCache::new(3);
    cache.insert(event("a", 1, 10, "m:created"));
    cache.insert(event("b", 2, 11, "m:created"));
    cache.insert(event("c", 3, 12, "m:created"));
    // Reading "a" makes "b" the least recently used event.
    assert!(cache.get("a").is_some());
    cache.insert(event("d", 4, 13, "m:created"));
    assert_eq!(cache.size(), 3);
    assert!(cache.get("b").is_none());
    assert!(cache.get("a").is_some());
    assert!(cache.get("c").is_some());
    assert!(cache.get("d").is_some());
    // Reading match 4's events refreshes "d"; order is now a, c, d → after
    // reading match 1 ("a"): c, d, a. Inserting evicts "c".
    assert_eq!(cache.get_by_match(4).len(), 1);
    assert_eq!(cache.get_by_match(1).len(), 1);
    cache.insert(event("e", 5, 14, "m:created"));
    assert!(cache.get("c").is_none());
    assert!(cache.get("d").is_some());
    assert!(cache.get("a").is_some());
    assert!(cache.get("e").is_some());
}

#[test]
fn match_info_from_events() {
    let mut created = event("a", 3, 10, "match:created");
    created.player1 = Some("GP1".to_string());
    created.player2 = Some("GP2".to_string());
    created.stake_amount = Some("100".to_string());
    let mut done = event("b", 3, 20, "match:completed");
    done.status = Some("completed".to_string());
    done.winner = Some("player1".to_string());
    let info = build_match_info(3, vec![created, done]).unwrap();
    assert_eq!(info.player1, "GP1");
    assert_eq!(info.player2, "GP2");
    assert_eq!(info.stake_amount, "100");
    assert_eq!(info.token, "");
    assert_eq!(info.status, MatchStatus::Completed);
    assert_eq!(info.winner, Some(Winner::Player1));
    assert_eq!(info.created_ledger, 10);
    assert_eq!(info.completed_ledger, Some(20));
    assert_eq!(info.events.len(), 2);
    assert!(build_match_info(3, vec![]).is_none());
    assert!(build_match_info(3, vec![event("x", 3, 1, "match:activated")]).is_none());
    let mut odd = event("y", 4, 2, "match:created");
    odd.status = Some("strange".to_string());
    odd.winner = Some("nobody".to_string());
    let info = build_match_info(4, vec![odd]).unwrap();
    assert_eq!(info.status, MatchStatus::Pending);
    assert_eq!(info.winner, None);
}

#[test]
fn test_get_match_info_404_returns_error_body() {
    let (status, body) = match_info_response(9999, Ok(None));
    assert_eq!(status, STATUS_NOT_FOUND);
    assert!(!body.success);
    assert_eq!(body.error.as_deref(), Some("Match 9999 not found"));
}

#[test]
fn api_answers() {
    let health = health_check();
    assert!(health.success);
    assert_eq!(health.data.as_deref(), Some("Event Indexer is healthy"));
    let (status, body) = events_response(Ok(vec![]));
    assert_eq!(status, STATUS_NOT_FOUND);
    assert_eq!(body.error.as_deref(), Some("No events found"));
    let (status, body) = events_response(Err("disk full".to_string()));
    assert_eq!(status, STATUS_INTERNAL_ERROR);
    assert_eq!(body.error.as_deref(), Some("Database error: disk full"));
    let (status, body) = events_response(Ok(vec![event("a", 1, 1, "m:created")]));
    assert_eq!(status, STATUS_OK);
    assert_eq!(body.data.unwrap().len(), 1);
    let (status, body) = match_events_response(17, Ok(vec![]));
    assert_eq!(status, STATUS_NOT_FOUND);
    assert_eq!(body.error.as_deref(), Some("No events found for match 17"));
    assert!(cached_match_events(vec![]).is_none());
    let (status, _) = cached_match_events(vec![event("a", 1, 1, "m:created")]).unwrap();
    assert_eq!(status, STATUS_OK);
    let (status, body) = match_info_response(1, Err("locked".to_string()));
    assert_eq!(status, STATUS_INTERNAL_ERROR);
    assert_eq!(body.error.as_deref(), Some("Database error: locked"));
    let (status, body) = stats_response(Ok(1024), 12);
    assert_eq!(status, STATUS_OK);
    let stats = body.data.unwrap();
    assert_eq!(stats.cache_size, 12);
    assert_eq!(stats.total_events, 1024);
    let (status, body) = stats_response(Err("locked".to_string()), 12);
    assert_eq!(status, STATUS_INTERNAL_ERROR);
    assert_eq!(body.error.as_deref(), Some("Database error: locked"));
}

#[test]
fn contract_address_lengths() {
    let full = "CABD7H7QWXSTDZ6YPMPZRJ2FLGDWP5AYWLF5PYQRB5PQV6PDBGFPMTDA";
    assert_eq!(full.len(), 56);
    assert!(Config::from_settings(settings(Some(full), Some("5"))).is_ok());
    let long = "CABD7H7QWXSTDZ6YPMPZRJ2FLGDWP5AYWLF5PYQRB5PQV6PDBGFPMTDAB";
    assert_eq!(Config::from_settings(settings(Some(long), Some("5"))).unwrap_err(), ConfigError::InvalidContractEscrow);
    let short = "CABD7H7QWXSTDZ6YPMPZRJ2FLGDWP5AYWLF5PYQRB5PQV6PDBGFPMT";
    assert_eq!(Config::from_settings(settings(Some(short), Some("5"))).unwrap_err(), ConfigError::InvalidContractEscrow);
}

#[test]
fn deposit_events_mark_the_match_active() {
    let data = texts(&[Some("9"), Some("GP1")]);
    let f = parse_event_data("match:deposit", &data);
    assert_eq!(f.0, 9);
    assert_eq!(f.3.as_deref(), Some("active"));
    assert_eq!(f.4, None);
}

#[test]
fn match_lists_hold_only_their_events_once() {
    let mut cache = EventCache::new(3);
    cache.insert(event("a", 1, 10, "m:created"));
    cache.insert(event("b", 2, 11, "m:created"));
    cache.insert(event("c", 1, 12, "m:activated"));
    cache.insert(event("d", 1, 13, "m:completed"));
    let ids: Vec<String> = cache.get_by_match(1).into_iter().map(|e| e.id).collect();
    assert_eq!(ids, vec!["c".to_string(), "d".to_string()]);
    for e in cache.get_by_match(1) {
        assert_eq!(e.match_id, 1);
    }
    let ids: Vec<String> = cache.get_by_match(2).into_iter().map(|e| e.id).collect();
    assert_eq!(ids, vec!["b".to_string()]);
}
