use checkmate::rate_limit::{OracleQuota, RateLimitConfig, RateWindow};
use checkmate::oracle::MAX_BATCH_SIZE;
use checkmate::rate_limit::{HOURLY_WINDOW_SECS, RateWindowKind};
use checkmate::{
    BatchResultEntry, Invocation, OracleContract, OracleError, OracleEvent, Platform, Winner,
};

const ADMIN: &str = "GORACLEADMINADDRESS";
const DEPLOYER: &str = "GDEPLOYERADDRESS";

fn signed(timestamp: u64, signer: &str) -> Invocation {
    Invocation { timestamp, sequence: 12, signers: vec![signer.to_string()] }
}

fn unsigned(timestamp: u64) -> Invocation {
    Invocation { timestamp, sequence: 12, signers: vec![] }
}

fn setup() -> OracleContract {
    let mut c = OracleContract::new();
    c.initialize(&signed(0, DEPLOYER), DEPLOYER.to_string(), ADMIN.to_string()).unwrap();
    c.take_events();
    c
}

fn submit(c: &mut OracleContract, now: u64, match_id: u64, game_id: &str, result: Winner) -> Result<(), OracleError> {
    c.submit_result(&signed(now, ADMIN), match_id, game_id.to_string(), Platform::Lichess, result)
}

fn entry(match_id: u64, game_id: &str) -> BatchResultEntry {
    BatchResultEntry { match_id, game_id: game_id.to_string(), platform: Platform::Lichess, result: Winner::Player1 }
}

fn count_alerts(events: &[OracleEvent]) -> usize {
    events.iter().filter(|e| matches!(e, OracleEvent::RateAlert { .. })).count()
}

#[test]
fn test_initialize_emits_event() {
    let mut c = OracleContract::new();
    c.initialize(&signed(0, DEPLOYER), DEPLOYER.to_string(), ADMIN.to_string()).unwrap();
    let events = c.take_events();
    let found = events.iter().find_map(|e| match e {
        OracleEvent::Initialized { admin } => Some(admin.clone()),
        _ => None,
    });
    assert!(found.is_some(), "oracle initialized event not emitted");
    assert_eq!(found.unwrap(), ADMIN);
}

#[test]
fn tests_test_duplicate_initialize_returns_already_initialized() {
    let mut c = OracleContract::new();
    c.initialize(&signed(0, DEPLOYER), DEPLOYER.to_string(), "GADMIN1".to_string()).unwrap();
    let result = c.initialize(&signed(0, DEPLOYER), DEPLOYER.to_string(), "GADMIN2".to_string());
    assert_eq!(result, Err(OracleError::AlreadyInitialized));
}

#[test]
fn test_has_result_returns_false_for_match_id_0_on_fresh_contract() {
    let c = setup();
    assert!(!c.has_result(0));
}

#[test]
fn test_has_result_is_public_and_unauthenticated() {
    let mut c = setup();
    assert!(!c.has_result(0));
    assert!(!c.has_result(999));
    submit(&mut c, 0, 0, "test_game", Winner::Player1).unwrap();
    assert!(c.has_result(0));
    assert!(!c.has_result(999));
}

#[test]
fn test_has_result_admin_returns_false_before_submission() {
    let c = setup();
    assert!(!c.has_result_admin(&signed(0, ADMIN), 0).unwrap());
    assert!(!c.has_result_admin(&signed(0, ADMIN), 999).unwrap());
}

#[test]
fn test_has_result_admin_returns_true_after_submission() {
    let mut c = setup();
    submit(&mut c, 0, 0, "test_game", Winner::Player1).unwrap();
    assert!(c.has_result_admin(&signed(0, ADMIN), 0).unwrap());
}

#[test]
#[should_panic]
fn test_has_result_admin_rejects_non_admin() {
    let c = setup();
    c.has_result_admin(&unsigned(0), 0).unwrap();
}

#[test]
fn test_submit_and_get_result() {
    let mut c = setup();
    submit(&mut c, 0, 0, "abc123", Winner::Player1).unwrap();
    assert!(c.has_result(0));
    let entry = c.get_result(0).unwrap();
    assert_eq!(entry.result, Winner::Player1);
    assert_eq!(entry.platform, Platform::Lichess);
}

#[test]
fn test_submit_result_stores_submitted_ledger() {
    let mut c = setup();
    let inv = signed(0, ADMIN);
    let ledger_before = inv.sequence;
    c.submit_result(&inv, 0, "abc123".to_string(), Platform::Lichess, Winner::Player1).unwrap();
    let entry = c.get_result(0).unwrap();
    assert!(entry.submitted_ledger >= ledger_before, "submitted_ledger must be >= ledger at call time");
}

#[test]
fn test_submit_result_stores_submitter() {
    let mut c = setup();
    submit(&mut c, 0, 0, "abc123", Winner::Player1).unwrap();
    assert_eq!(c.get_result(0).unwrap().submitter, ADMIN);
}

#[test]
fn test_submit_result_emits_event() {
    let mut c = setup();
    submit(&mut c, 0, 0, "abc123", Winner::Player1).unwrap();
    let events = c.take_events();
    let found = events.iter().find_map(|e| match e {
        OracleEvent::ResultSubmitted { match_id, result } => Some((*match_id, *result)),
        _ => None,
    });
    assert!(found.is_some(), "oracle result event not emitted");
    assert_eq!(found.unwrap(), (0u64, Winner::Player1));
}

#[test]
fn test_submit_draw_result_emits_event() {
    let mut c = setup();
    submit(&mut c, 0, 0, "abc123", Winner::Draw).unwrap();
    let events = c.take_events();
    let found = events.iter().find_map(|e| match e {
        OracleEvent::ResultSubmitted { match_id, result } => Some((*match_id, *result)),
        _ => None,
    });
    assert!(found.is_some(), "oracle result event not emitted for Draw");
    assert_eq!(found.unwrap(), (0u64, Winner::Draw));
}

#[test]
#[should_panic]
fn test_duplicate_submit_fails() {
    let mut c = setup();
    submit(&mut c, 0, 0, "abc123", Winner::Draw).unwrap();
    submit(&mut c, 0, 0, "abc123", Winner::Draw).unwrap();
}

#[test]
fn test_duplicate_submit_returns_already_submitted() {
    let mut c = setup();
    submit(&mut c, 0, 0, "abc123", Winner::Draw).unwrap();
    let result = submit(&mut c, 0, 0, "abc123", Winner::Draw);
    assert_eq!(result, Err(OracleError::AlreadySubmitted));
}

#[test]
fn test_double_initialize_returns_already_initialized() {
    let mut c = OracleContract::new();
    c.initialize(&signed(0, DEPLOYER), DEPLOYER.to_string(), ADMIN.to_string()).unwrap();
    let result = c.initialize(&signed(0, DEPLOYER), DEPLOYER.to_string(), ADMIN.to_string());
    assert_eq!(result, Err(OracleError::AlreadyInitialized));
}

#[test]
fn test_submit_result_on_uninitialized_contract_returns_unauthorized() {
    let mut c = OracleContract::new();
    let result = submit(&mut c, 0, 0, "game_abc", Winner::Player1);
    assert_eq!(result, Err(OracleError::Unauthorized));
}

#[test]
fn test_is_initialized() {
    let mut c = OracleContract::new();
    assert!(!c.is_initialized());
    c.initialize(&signed(0, DEPLOYER), DEPLOYER.to_string(), ADMIN.to_string()).unwrap();
    assert!(c.is_initialized());
}

#[test]
#[should_panic(expected = "Error(Contract, #3)")]
fn test_get_result_not_found() {
    let c = setup();
    c.get_result(9999).expect("Error(Contract, #3)");
}

#[test]
fn test_pause_on_uninitialized_contract_returns_unauthorized() {
    let mut c = OracleContract::new();
    assert_eq!(c.pause(&signed(0, ADMIN)), Err(OracleError::Unauthorized));
}

#[test]
fn test_pause_admin_only() {
    let mut c = setup();
    c.pause(&signed(0, ADMIN)).unwrap();
    let result = submit(&mut c, 0, 0, "abc123", Winner::Player1);
    assert_eq!(result, Err(OracleError::ContractPaused));
}

#[test]
fn test_unpause_admin_only() {
    let mut c = setup();
    c.pause(&signed(0, ADMIN)).unwrap();
    c.unpause(&signed(0, ADMIN)).unwrap();
    submit(&mut c, 0, 0, "abc123", Winner::Player1).unwrap();
    assert!(c.has_result(0));
}

#[test]
fn test_submit_result_blocked_when_paused() {
    let mut c = setup();
    c.pause(&signed(0, ADMIN)).unwrap();
    let result = submit(&mut c, 0, 0, "abc123", Winner::Player1);
    assert_eq!(result, Err(OracleError::ContractPaused));
    assert!(!c.has_result(0));
}

#[test]
fn test_submit_result_works_after_unpause() {
    let mut c = setup();
    c.pause(&signed(0, ADMIN)).unwrap();
    let result = submit(&mut c, 0, 0, "abc123", Winner::Player1);
    assert_eq!(result, Err(OracleError::ContractPaused));
    c.unpause(&signed(0, ADMIN)).unwrap();
    submit(&mut c, 0, 0, "abc123", Winner::Player1).unwrap();
    assert!(c.has_result(0));
    assert_eq!(c.get_result(0).unwrap().result, Winner::Player1);
}

#[test]
fn test_pause_unpause_state_transitions() {
    let mut c = setup();
    submit(&mut c, 0, 0, "abc123", Winner::Player1).unwrap();
    assert!(c.has_result(0));
    c.pause(&signed(0, ADMIN)).unwrap();
    assert_eq!(submit(&mut c, 0, 1, "def456", Winner::Player2), Err(OracleError::ContractPaused));
    c.unpause(&signed(0, ADMIN)).unwrap();
    submit(&mut c, 0, 1, "def456", Winner::Player2).unwrap();
    assert!(c.has_result(1));
    c.pause(&signed(0, ADMIN)).unwrap();
    assert_eq!(submit(&mut c, 0, 2, "ghi789", Winner::Draw), Err(OracleError::ContractPaused));
}

#[test]
fn test_pause_twice_is_idempotent() {
    let mut c = setup();
    c.pause(&signed(0, ADMIN)).unwrap();
    c.pause(&signed(0, ADMIN)).unwrap();
    assert!(c.is_paused());
}

#[test]
fn test_unpause_emits_unpaused_event() {
    let mut c = setup();
    c.pause(&signed(0, ADMIN)).unwrap();
    c.unpause(&signed(0, ADMIN)).unwrap();
    let events = c.take_events();
    assert!(events.iter().any(|e| matches!(e, OracleEvent::Unpaused)), "unpaused event not emitted");
}

#[test]
fn test_pause_emits_paused_event() {
    let mut c = setup();
    c.pause(&signed(0, ADMIN)).unwrap();
    let events = c.take_events();
    assert!(events.iter().any(|e| matches!(e, OracleEvent::Paused)), "paused event not emitted");
}

#[test]
fn test_delete_result_removes_from_storage() {
    let mut c = setup();
    submit(&mut c, 0, 0, "chess_game_42", Winner::Player1).unwrap();
    assert!(c.has_result(0));
    c.delete_result(&signed(0, ADMIN), 0).unwrap();
    assert!(!c.has_result(0));
}

#[test]
fn test_delete_result_not_found_errors() {
    let mut c = setup();
    assert_eq!(c.delete_result(&signed(0, ADMIN), 999), Err(OracleError::ResultNotFound));
}

#[test]
fn test_delete_result_blocked_when_paused() {
    let mut c = setup();
    submit(&mut c, 0, 0, "chess_game_99", Winner::Player2).unwrap();
    assert!(c.has_result(0));
    c.pause(&signed(0, ADMIN)).unwrap();
    assert_eq!(c.delete_result(&signed(0, ADMIN), 0), Err(OracleError::ContractPaused));
    assert!(c.has_result(0));
}

#[test]
fn test_delete_result_emits_deletion_event() {
    let mut c = setup();
    submit(&mut c, 0, 0, "chess_game_42", Winner::Player1).unwrap();
    assert!(c.has_result(0));
    c.delete_result(&signed(0, ADMIN), 0).unwrap();
    let events = c.take_events();
    let found = events.iter().find_map(|e| match e {
        OracleEvent::ResultDeleted { match_id } => Some(*match_id),
        _ => None,
    });
    assert!(found.is_some(), "deletion event not emitted");
    assert_eq!(found.unwrap(), 0u64);
}

#[test]
#[should_panic]
fn test_delete_result_requires_admin_auth() {
    let mut c = setup();
    c.delete_result(&unsigned(0), 0).unwrap();
}

#[test]
fn test_transfer_admin_old_rejected_new_accepted() {
    let mut c = setup();
    let new_admin = "GNEWADMIN";
    c.update_admin(&signed(0, ADMIN), new_admin.to_string()).unwrap();
    let result = c.submit_result(&signed(0, ADMIN), 0, "test_game".to_string(), Platform::Lichess, Winner::Player1);
    assert!(result.is_err(), "old admin must be rejected after transfer_admin");
    c.submit_result(&signed(0, new_admin), 0, "test_game".to_string(), Platform::Lichess, Winner::Player1).unwrap();
    assert!(c.has_result(0), "new admin must be able to submit results after transfer");
    assert_eq!(c.get_result(0).unwrap().result, Winner::Player1);
}

#[test]
fn test_update_admin_emits_rotation_event() {
    let mut c = setup();
    c.update_admin(&signed(0, ADMIN), "GNEWADMIN".to_string()).unwrap();
    let events = c.take_events();
    let found = events.iter().find_map(|e| match e {
        OracleEvent::AdminRotated { old_admin, new_admin } => Some((old_admin.clone(), new_admin.clone())),
        _ => None,
    });
    assert!(found.is_some(), "admin_rot event not emitted");
    let (ev_old, ev_new) = found.unwrap();
    assert_eq!(ev_old, ADMIN);
    assert_eq!(ev_new, "GNEWADMIN");
}

#[test]
fn test_batch_submit_single_entry() {
    let mut c = setup();
    c.submit_batch_results(&signed(0, ADMIN), vec![entry(0, "game_a")]).unwrap();
    assert!(c.has_result(0));
    assert_eq!(c.get_result(0).unwrap().result, Winner::Player1);
}

#[test]
fn test_batch_submit_multiple_entries() {
    let mut c = setup();
    let entries = vec![
        entry(0, "game_0"),
        BatchResultEntry { match_id: 1, game_id: "game_1".to_string(), platform: Platform::Lichess, result: Winner::Player2 },
        BatchResultEntry { match_id: 2, game_id: "game_2".to_string(), platform: Platform::ChessDotCom, result: Winner::Draw },
    ];
    c.submit_batch_results(&signed(0, ADMIN), entries).unwrap();
    assert!(c.has_result(0));
    assert!(c.has_result(1));
    assert!(c.has_result(2));
    assert_eq!(c.get_result(1).unwrap().result, Winner::Player2);
    assert_eq!(c.get_result(2).unwrap().result, Winner::Draw);
}

#[test]
fn test_batch_submit_max_size_100() {
    let mut c = setup();
    let entries: Vec<BatchResultEntry> = (0u64..100).map(|i| entry(i, "g")).collect();
    c.submit_batch_results(&signed(0, ADMIN), entries).unwrap();
    assert!(c.has_result(0));
    assert!(c.has_result(99));
}

#[test]
fn test_batch_submit_over_limit_returns_batch_too_large() {
    let mut c = setup();
    let entries: Vec<BatchResultEntry> = (0u64..101).map(|i| entry(i, "g")).collect();
    assert_eq!(c.submit_batch_results(&signed(0, ADMIN), entries), Err(OracleError::BatchTooLarge));
    assert_eq!(MAX_BATCH_SIZE, 100);
}

#[test]
fn test_batch_submit_intra_batch_duplicate_returns_error() {
    let mut c = setup();
    let entries = vec![entry(0, "game_a"), entry(0, "game_b")];
    assert_eq!(c.submit_batch_results(&signed(0, ADMIN), entries), Err(OracleError::BatchDuplicateEntry));
}

#[test]
fn test_batch_duplicate_does_not_write_partial_state() {
    let mut c = setup();
    let entries = vec![entry(0, "game_a"), entry(0, "game_b")];
    let _ = c.submit_batch_results(&signed(0, ADMIN), entries);
    assert!(!c.has_result(0));
}

#[test]
fn test_batch_already_submitted_returns_error() {
    let mut c = setup();
    submit(&mut c, 0, 0, "game_existing", Winner::Player1).unwrap();
    let result = c.submit_batch_results(&signed(0, ADMIN), vec![entry(0, "game_a")]);
    assert_eq!(result, Err(OracleError::AlreadySubmitted));
}

#[test]
fn test_batch_already_submitted_does_not_overwrite() {
    let mut c = setup();
    submit(&mut c, 0, 0, "game_existing", Winner::Draw).unwrap();
    let _ = c.submit_batch_results(&signed(0, ADMIN), vec![entry(0, "game_override")]);
    assert_eq!(c.get_result(0).unwrap().result, Winner::Draw);
}

#[test]
fn test_batch_invalid_game_id_returns_error() {
    let mut c = setup();
    let result = c.submit_batch_results(&signed(0, ADMIN), vec![entry(0, "")]);
    assert_eq!(result, Err(OracleError::InvalidGameId));
}

#[test]
fn test_batch_paused_returns_contract_paused() {
    let mut c = setup();
    c.pause(&signed(0, ADMIN)).unwrap();
    let result = c.submit_batch_results(&signed(0, ADMIN), vec![entry(0, "game_a")]);
    assert_eq!(result, Err(OracleError::ContractPaused));
}

#[test]
fn test_batch_paused_writes_nothing() {
    let mut c = setup();
    c.pause(&signed(0, ADMIN)).unwrap();
    let _ = c.submit_batch_results(&signed(0, ADMIN), vec![entry(0, "game_a")]);
    assert!(!c.has_result(0));
}

#[test]
fn test_batch_uninitialized_returns_unauthorized() {
    let mut c = OracleContract::new();
    let result = c.submit_batch_results(&signed(0, ADMIN), vec![entry(0, "game_a")]);
    assert_eq!(result, Err(OracleError::Unauthorized));
}

#[test]
fn test_batch_emits_individual_and_summary_events() {
    let mut c = setup();
    c.submit_batch_results(&signed(0, ADMIN), vec![entry(0, "game_0"), entry(1, "game_1")]).unwrap();
    let events = c.take_events();
    let result_count = events.iter().filter(|e| matches!(e, OracleEvent::ResultSubmitted { .. })).count();
    assert_eq!(result_count, 2, "expected 2 individual result events");
    let batch = events.iter().find_map(|e| match e {
        OracleEvent::BatchSubmitted { count } => Some(*count),
        _ => None,
    });
    assert!(batch.is_some(), "batch summary event not emitted");
    assert_eq!(batch.unwrap(), 2u32);
}

#[test]
fn test_default_rate_limits_are_100_hourly_1000_daily() {
    let c = setup();
    let admin = ADMIN.to_string();
    let limits = c.get_oracle_rate_limits(&admin);
    assert_eq!(limits.hourly_limit, 100);
    assert_eq!(limits.daily_limit, 1000);
    let status = c.get_oracle_rate_limit_status(0, &admin);
    assert_eq!(status.hourly_used, 0);
    assert_eq!(status.hourly_remaining, 100);
    assert_eq!(status.daily_used, 0);
    assert_eq!(status.daily_remaining, 1000);
}

#[test]
fn test_hourly_rate_limit_blocks_101st_submission_in_same_hour() {
    let mut c = setup();
    for match_id in 0u64..100 {
        submit(&mut c, 0, match_id, "g", Winner::Player1).unwrap();
    }
    let result = submit(&mut c, 0, 100, "g", Winner::Player1);
    assert_eq!(result, Err(OracleError::RateLimitExceeded));
    assert!(!c.has_result(100));
    let status = c.get_oracle_rate_limit_status(0, &ADMIN.to_string());
    assert_eq!(status.hourly_used, 100);
    assert_eq!(status.hourly_remaining, 0);
}

#[test]
fn test_batch_submission_counts_full_batch_against_rate_limit() {
    let mut c = setup();
    let entries: Vec<BatchResultEntry> = (0u64..100).map(|i| entry(i, "g")).collect();
    c.submit_batch_results(&signed(0, ADMIN), entries).unwrap();
    let result = submit(&mut c, 0, 200, "g", Winner::Player1);
    assert_eq!(result, Err(OracleError::RateLimitExceeded));
}

#[test]
fn test_batch_rejected_when_it_would_exceed_hourly_limit_writes_nothing() {
    let mut c = setup();
    submit(&mut c, 0, 0, "g", Winner::Player1).unwrap();
    let entries: Vec<BatchResultEntry> = (1u64..101).map(|i| entry(i, "g")).collect();
    let result = c.submit_batch_results(&signed(0, ADMIN), entries);
    assert_eq!(result, Err(OracleError::RateLimitExceeded));
    assert!(!c.has_result(1));
    assert!(!c.has_result(100));
}

#[test]
fn test_rejected_submission_does_not_consume_quota() {
    let mut c = setup();
    c.set_oracle_rate_limits(&signed(0, ADMIN), ADMIN.to_string(), 1, 10).unwrap();
    submit(&mut c, 0, 0, "g", Winner::Player1).unwrap();
    let blocked = submit(&mut c, 0, 1, "g", Winner::Player1);
    assert_eq!(blocked, Err(OracleError::RateLimitExceeded));
    let status = c.get_oracle_rate_limit_status(0, &ADMIN.to_string());
    assert_eq!(status.hourly_used, 1);
    assert_eq!(status.daily_used, 1);
}

#[test]
fn test_hourly_window_resets_after_window_elapses() {
    let mut c = setup();
    c.set_oracle_rate_limits(&signed(0, ADMIN), ADMIN.to_string(), 1, 1000).unwrap();
    submit(&mut c, 0, 0, "g", Winner::Player1).unwrap();
    assert_eq!(submit(&mut c, 0, 1, "g", Winner::Player1), Err(OracleError::RateLimitExceeded));
    let later = 2 * HOURLY_WINDOW_SECS + 1;
    submit(&mut c, later, 1, "g", Winner::Player1).unwrap();
    assert!(c.has_result(1));
    let status = c.get_oracle_rate_limit_status(later, &ADMIN.to_string());
    assert_eq!(status.hourly_used, 1);
}

#[test]
fn test_daily_limit_persists_across_hourly_window_reset() {
    let mut c = setup();
    c.set_oracle_rate_limits(&signed(0, ADMIN), ADMIN.to_string(), 5, 8).unwrap();
    let mut match_id = 0u64;
    for _ in 0..5 {
        submit(&mut c, 0, match_id, "g", Winner::Player1).unwrap();
        match_id += 1;
    }
    assert_eq!(submit(&mut c, 0, match_id, "g", Winner::Player1), Err(OracleError::RateLimitExceeded));
    let later = 2 * HOURLY_WINDOW_SECS + 1;
    for _ in 0..3 {
        submit(&mut c, later, match_id, "g", Winner::Player1).unwrap();
        match_id += 1;
    }
    assert_eq!(submit(&mut c, later, match_id, "g", Winner::Player1), Err(OracleError::RateLimitExceeded));
    let status = c.get_oracle_rate_limit_status(later, &ADMIN.to_string());
    assert_eq!(status.hourly_used, 3);
    assert_eq!(status.daily_used, 8);
    assert_eq!(status.daily_remaining, 0);
}

#[test]
fn test_set_oracle_rate_limits_rejects_hourly_greater_than_daily() {
    let mut c = setup();
    let result = c.set_oracle_rate_limits(&signed(0, ADMIN), ADMIN.to_string(), 200, 100);
    assert_eq!(result, Err(OracleError::InvalidRateLimit));
}

#[test]
fn test_set_oracle_rate_limits_zero_falls_back_to_defaults() {
    let mut c = setup();
    c.set_oracle_rate_limits(&signed(0, ADMIN), ADMIN.to_string(), 0, 0).unwrap();
    let limits = c.get_oracle_rate_limits(&ADMIN.to_string());
    assert_eq!(limits.hourly_limit, 100);
    assert_eq!(limits.daily_limit, 1000);
}

#[test]
fn test_set_oracle_rate_limits_emits_event() {
    let mut c = setup();
    c.set_oracle_rate_limits(&signed(0, ADMIN), ADMIN.to_string(), 50, 500).unwrap();
    let events = c.take_events();
    let found = events.iter().find_map(|e| match e {
        OracleEvent::RateLimitsSet { oracle, hourly_limit, daily_limit } => Some((oracle.clone(), *hourly_limit, *daily_limit)),
        _ => None,
    });
    assert!(found.is_some(), "ratelim event not emitted");
    let (oracle, hourly, daily) = found.unwrap();
    assert_eq!(oracle, ADMIN);
    assert_eq!(hourly, 50);
    assert_eq!(daily, 500);
}

#[test]
#[should_panic]
fn test_set_oracle_rate_limits_requires_admin_auth() {
    let mut c = setup();
    c.set_oracle_rate_limits(&unsigned(0), ADMIN.to_string(), 50, 500).unwrap();
}

#[test]
fn test_set_oracle_rate_limits_on_uninitialized_contract_returns_unauthorized() {
    let mut c = OracleContract::new();
    let result = c.set_oracle_rate_limits(&signed(0, ADMIN), "GSOMEORACLE".to_string(), 50, 500);
    assert_eq!(result, Err(OracleError::Unauthorized));
}

#[test]
fn test_alert_emitted_at_80_percent_hourly_usage() {
    let mut c = setup();
    c.set_oracle_rate_limits(&signed(0, ADMIN), ADMIN.to_string(), 10, 1000).unwrap();
    for match_id in 0u64..8 {
        submit(&mut c, 0, match_id, "g", Winner::Player1).unwrap();
    }
    let events = c.take_events();
    assert!(count_alerts(&events) >= 1, "expected a suspicious-pattern alert once usage reached 80% of the hourly limit");
    assert!(events.iter().any(|e| matches!(e, OracleEvent::RateAlert { window: RateWindowKind::Hourly, used: 8, limit: 10, .. })));
}

#[test]
fn test_no_alert_below_80_percent_usage() {
    let mut c = setup();
    c.set_oracle_rate_limits(&signed(0, ADMIN), ADMIN.to_string(), 10, 1000).unwrap();
    for match_id in 0u64..5 {
        submit(&mut c, 0, match_id, "g", Winner::Player1).unwrap();
    }
    let events = c.take_events();
    assert_eq!(count_alerts(&events), 0);
}

#[test]
fn test_high_volume_burst_is_throttled_then_recovers_next_hour() {
    let mut c = setup();
    let mut accepted = 0u32;
    let mut rejected = 0u32;
    for match_id in 0u64..150 {
        match submit(&mut c, 0, match_id, "g", Winner::Player1) {
            Ok(_) => accepted += 1,
            Err(e) => {
                assert_eq!(e, OracleError::RateLimitExceeded);
                rejected += 1;
            }
        }
    }
    assert_eq!(accepted, 100);
    assert_eq!(rejected, 50);
    let later = 2 * HOURLY_WINDOW_SECS + 1;
    submit(&mut c, later, 999, "g", Winner::Player1).unwrap();
    assert!(c.has_result(999));
}

#[test]
fn test_get_admin_returns_admin_after_initialize() {
    let mut c = OracleContract::new();
    c.initialize(&signed(0, DEPLOYER), DEPLOYER.to_string(), ADMIN.to_string()).unwrap();
    assert_eq!(c.get_admin().unwrap(), ADMIN);
}

#[test]
fn test_get_admin_returns_unauthorized_when_not_initialized() {
    let c = OracleContract::new();
    assert_eq!(c.get_admin(), Err(OracleError::Unauthorized));
}

#[test]
fn initialize_requires_the_deployer_signature() {
    let mut c = OracleContract::new();
    let result = c.initialize(&signed(0, "GSOMEONEELSE"), DEPLOYER.to_string(), "GATTACKER".to_string());
    assert_eq!(result, Err(OracleError::Unauthorized));
    assert!(!c.is_initialized());
    assert!(c.take_events().is_empty());
    let result = c.initialize(&unsigned(0), DEPLOYER.to_string(), ADMIN.to_string());
    assert_eq!(result, Err(OracleError::Unauthorized));
    assert!(!c.is_initialized());
    c.initialize(&signed(0, DEPLOYER), DEPLOYER.to_string(), ADMIN.to_string()).unwrap();
    assert_eq!(c.get_admin().unwrap(), ADMIN);
}

#[test]
fn saturated_hourly_usage_is_refused_by_the_daily_limit() {
    let mut c = setup();
    let now = 1_000u64;
    c.load_quota(OracleQuota {
        oracle: ADMIN.to_string(),
        limits: Some(RateLimitConfig { hourly_limit: u32::MAX, daily_limit: 10 }),
        hourly: Some(RateWindow { window_start: now, current_count: u32::MAX, previous_count: 0 }),
        daily: Some(RateWindow { window_start: now, current_count: 10, previous_count: 0 }),
    });
    let inv = signed(now, ADMIN);
    assert!(c.submission_fits(&inv, 1));
    let result = c.submit_result(&inv, 7, "abc".to_string(), Platform::Lichess, Winner::Player1);
    assert_eq!(result, Err(OracleError::RateLimitExceeded));
    assert!(!c.has_result(7));
}
