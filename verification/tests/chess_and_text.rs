use checkmate::chess_com::{
    game_url, interpret_game_response, request_wait_ms, validate_game_id, ChessComError,
    DEFAULT_API_BASE, MIN_REQUEST_SPACING_MS,
};
use checkmate::text::{contains_text, decimal_i64, decimal_u64, join_text, parse_unsigned};
use checkmate::Winner;

#[test]
fn game_ids_must_be_digits() {
    assert!(validate_game_id("123456789").is_ok());
    assert!(matches!(validate_game_id(""), Err(ChessComError::InvalidGameId)));
    assert!(matches!(validate_game_id("abc"), Err(ChessComError::InvalidGameId)));
    assert!(matches!(validate_game_id("12a4"), Err(ChessComError::InvalidGameId)));
}

#[test]
fn game_url_trims_trailing_slashes() {
    assert_eq!(game_url(DEFAULT_API_BASE, "42"), "https://api.chess.com/pub/game/42");
    assert_eq!(game_url("http://localhost:9///", "7"), "http://localhost:9/pub/game/7");
}

#[test]
fn chess_com_results_map_to_winners() {
    assert_eq!(interpret_game_response(200, Some("white".to_string())).unwrap().winner, Winner::Player1);
    assert_eq!(interpret_game_response(200, Some("black".to_string())).unwrap().winner, Winner::Player2);
    assert_eq!(interpret_game_response(204, Some("draw".to_string())).unwrap().winner, Winner::Draw);
    assert!(matches!(interpret_game_response(200, Some("resigned".to_string())), Err(ChessComError::InvalidResponse)));
    assert!(matches!(interpret_game_response(200, None), Err(ChessComError::GameNotFinished)));
    assert!(matches!(interpret_game_response(404, Some("white".to_string())), Err(ChessComError::GameNotFound)));
    assert!(matches!(interpret_game_response(503, None), Err(ChessComError::HttpStatus { status: 503 })));
}

#[test]
fn requests_are_spaced() {
    assert_eq!(request_wait_ms(500, MIN_REQUEST_SPACING_MS), 1500);
    assert_eq!(request_wait_ms(2500, MIN_REQUEST_SPACING_MS), 0);
}

#[test]
fn text_helpers() {
    assert!(contains_text("match:completed", "completed"));
    assert!(contains_text("abc", ""));
    assert!(!contains_text("ab", "abc"));
    assert!(!contains_text("match:created", "cancelled"));
    assert_eq!(decimal_u64(0), "0");
    assert_eq!(decimal_u64(18446744073709551615), "18446744073709551615");
    assert_eq!(decimal_i64(-9223372036854775808), "-9223372036854775808");
    assert_eq!(decimal_i64(42), "42");
    assert_eq!(join_text("a", "bc"), "abc");
    assert_eq!(parse_unsigned("+17", 100), Some(17));
    assert_eq!(parse_unsigned("101", 100), None);
    assert_eq!(parse_unsigned("", 100), None);
    assert_eq!(parse_unsigned("+", 100), None);
    assert_eq!(parse_unsigned(" 1", 100), None);
    assert_eq!(parse_unsigned("18446744073709551615", u64::MAX), Some(u64::MAX));
    assert_eq!(parse_unsigned("18446744073709551616", u64::MAX), None);
}
