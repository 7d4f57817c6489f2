use vstd::prelude::*;

verus! {

/// Errors reported by the escrow contract.
#[derive(Clone, Copy, Debug, PartialEq, Eq, Structural)]
pub enum Error {
    MatchNotFound,
    AlreadyFunded,
    NotFunded,
    Unauthorized,
    InvalidState,
    AlreadyExists,
    AlreadyInitialized,
    Overflow,
    ContractPaused,
    InvalidAmount,
    MatchCancelled,
    MatchCompleted,
    DuplicateGameId,
    MatchNotExpired,
    InvalidGameId,
    InvalidPlayers,
    TokenNotAllowed,
}

/// Lifecycle state of an escrowed match.
#[derive(Clone, Copy, Debug, PartialEq, Eq, Structural)]
pub enum MatchState {
    /// Created, awaiting deposits.
    Pending,
    /// Both players deposited, game in progress.
    Active,
    /// Result submitted, payout executed.
    Completed,
    /// Cancelled before activation.
    Cancelled,
}

/// Chess platform on which a match is played.
#[derive(Clone, Copy, Debug, PartialEq, Eq, Structural)]
pub enum Platform {
    Lichess,
    ChessDotCom,
}

/// Outcome of a match.
#[derive(Clone, Copy, Debug, PartialEq, Eq, Structural)]
pub enum Winner {
    Player1,
    Player2,
    Draw,
}

/// An escrowed match. Addresses are held in their textual (strkey) form.
pub struct Match {
    pub id: u64,
    pub player1: String,
    pub player2: String,
    pub stake_amount: i128,
    pub token: String,
    pub game_id: String,
    pub platform: Platform,
    pub state: MatchState,
    pub player1_deposited: bool,
    pub player2_deposited: bool,
    /// Ledger sequence number at match creation.
    pub created_ledger: u32,
    /// Ledger sequence number when the match reached a terminal state.
    pub completed_ledger: Option<u32>,
}

/// Storage keys of the escrow contract.
pub enum DataKey {
    Match(u64),
    MatchCount,
    Oracle,
    Admin,
    Paused,
    GameId(String),
    LiveMatches,
    AllowedToken(String),
    AllowlistEnforced,
    OracleRecord(u64),
}

} // verus!
