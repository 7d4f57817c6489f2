use vstd::prelude::*;

use crate::escrow::Winner;
use crate::rpc::opt_view;
use crate::text::{chars_of, is_digit, join_text};

verus! {

/// Base URL of the Chess.com public API.
pub const DEFAULT_API_BASE: &'static str = "https://api.chess.com";

/// Per-request timeout, in seconds.
pub const REQUEST_TIMEOUT_SECS: u64 = 30;

/// Minimum spacing between two requests, in milliseconds (30 requests per minute).
pub const MIN_REQUEST_SPACING_MS: u64 = 2000;

/// The outcome of a finished Chess.com game.
#[derive(Clone, Copy, Debug, PartialEq, Eq, Structural)]
pub struct ChessComGameResult {
    pub winner: Winner,
}

/// Why a Chess.com result could not be obtained.
#[derive(Debug)]
pub enum ChessComError {
    /// The game id is not a non-empty string of ASCII digits.
    InvalidGameId,
    /// The HTTP request failed; the text describes the failure.
    Http(String),
    /// The request timed out.
    Timeout,
    /// Chess.com answered with a status other than success or 404.
    HttpStatus { status: u16 },
    /// Chess.com answered 404.
    GameNotFound,
    /// The game lacks a result, or its result is not one of the known ones.
    InvalidResponse,
    /// The game has no result yet.
    GameNotFinished,
}

/// `game_id` is a Chess.com game id: one or more ASCII digits.
pub open spec fn valid_game_id(game_id: Seq<char>) -> bool {
    game_id.len() > 0 && forall|i: int| 0 <= i < game_id.len() ==> is_digit(#[trigger] game_id[i])
}

/// Check that `game_id` is a non-empty string of ASCII digits.
pub fn validate_game_id(game_id: &str) -> (r: Result<(), ChessComError>)
    ensures
        r is Ok <==> valid_game_id(game_id@),
        r is Err ==> r matches Err(ChessComError::InvalidGameId),
{
    let cs = chars_of(game_id);
    if cs.len() == 0 {
        return Err(ChessComError::InvalidGameId);
    }
    let n = cs.len();
    let mut i: usize = 0;
    while i < n
        invariant
            cs@ == game_id@,
            n == cs@.len(),
            i <= n,
            forall|j: int| 0 <= j < i ==> is_digit(#[trigger] game_id@[j]),
        decreases n - i,
    {
        let c = cs[i];
        if c < '0' || c > '9' {
            return Err(ChessComError::InvalidGameId);
        }
        i = i + 1;
    }
    Ok(())
}

/// `s` without its trailing `/` characters.
pub open spec fn trim_trailing_slashes(s: Seq<char>) -> Seq<char>
    decreases s.len(),
{
    if s.len() > 0 && s.last() == '/' {
        trim_trailing_slashes(s.drop_last())
    } else {
        s
    }
}

/// The API address of game `game_id`: the base without trailing slashes,
/// then `/pub/game/` and the id.
pub open spec fn game_url_text(api_base: Seq<char>, game_id: Seq<char>) -> Seq<char> {
    trim_trailing_slashes(api_base) + "/pub/game/"@ + game_id
}

/// The API address of game `game_id` under `api_base`.
pub fn game_url(api_base: &str, game_id: &str) -> (r: String)
    ensures
        r@ == game_url_text(api_base@, game_id@),
{
    let cs = chars_of(api_base);
    let mut end: usize = cs.len();
    assert(api_base@.subrange(0, end as int) =~= api_base@);
    while end > 0 && cs[end - 1] == '/'
        invariant
            cs@ == api_base@,
            end <= cs@.len(),
            trim_trailing_slashes(api_base@) == trim_trailing_slashes(api_base@.subrange(0, end as int)),
        decreases end,
    {
        proof {
            assert(api_base@.subrange(0, end as int).drop_last() =~= api_base@.subrange(0, end - 1));
        }
        end = end - 1;
    }
    let base = api_base.substring_char(0, end);
    let with_path = join_text(base, "/pub/game/");
    join_text(with_path.as_str(), game_id)
}

/// The result a Chess.com `end.result` text stands for, if it is a known one.
pub open spec fn winner_of_result(result: Seq<char>) -> Option<Winner> {
    if result == "draw"@ {
        Some(Winner::Draw)
    } else if result == "white"@ {
        Some(Winner::Player1)
    } else if result == "black"@ {
        Some(Winner::Player2)
    } else {
        None
    }
}

/// Interpret Chess.com's answer: its HTTP status and the game's `end.result`
/// field. 404 means the game is unknown, any other non-2xx status is an
/// error, a game without a final `end.result` is not finished yet (worth
/// asking again later), and a final result must be `draw`, `white`
/// (player 1) or `black` (player 2).
pub fn interpret_game_response(status: u16, end_result: Option<String>) -> (r: Result<
    ChessComGameResult,
    ChessComError,
>)
    ensures
        status == 404 ==> r matches Err(ChessComError::GameNotFound),
        status != 404 && !(200 <= status <= 299) ==> (r matches Err(ChessComError::HttpStatus { status: s }) && s == status),
        200 <= status <= 299 ==> match opt_view(end_result) {
            Some(t) => match winner_of_result(t) {
                Some(w) => r == Ok::<ChessComGameResult, ChessComError>(ChessComGameResult { winner: w }),
                None => r matches Err(ChessComError::InvalidResponse),
            },
            None => r matches Err(ChessComError::GameNotFinished),
        },
{
    if status == 404 {
        return Err(ChessComError::GameNotFound);
    }
    if !(200 <= status && status <= 299) {
        return Err(ChessComError::HttpStatus { status });
    }
    let result = match end_result {
        Some(r) => r,
        None => return Err(ChessComError::GameNotFinished),
    };
    let winner = if result == String::from_str("draw") {
        Winner::Draw
    } else if result == String::from_str("white") {
        Winner::Player1
    } else if result == String::from_str("black") {
        Winner::Player2
    } else {
        return Err(ChessComError::InvalidResponse);
    };
    Ok(ChessComGameResult { winner })
}

/// How long to wait before the next request, given the milliseconds since
/// the previous one, so that requests stay `min_spacing_ms` apart.
pub fn request_wait_ms(elapsed_ms: u64, min_spacing_ms: u64) -> (wait: u64)
    ensures
        wait == if elapsed_ms < min_spacing_ms {
            min_spacing_ms - elapsed_ms
        } else {
            0
        },
        elapsed_ms + wait >= min_spacing_ms,
{
    if elapsed_ms < min_spacing_ms {
        min_spacing_ms - elapsed_ms
    } else {
        0
    }
}

} // verus!
