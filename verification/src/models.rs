use vstd::prelude::*;

verus! {

/// Status of a match as seen by the event indexer.
#[derive(Clone, Copy, Debug, PartialEq, Eq, Structural)]
pub enum MatchStatus {
    Pending,
    Active,
    Completed,
    Cancelled,
    Expired,
}

/// Outcome of a match as seen by the event indexer.
#[derive(Clone, Copy, Debug, PartialEq, Eq, Structural)]
pub enum Winner {
    Player1,
    Player2,
    Draw,
}

/// A contract event as stored by the indexer. `timestamp` is the moment of
/// indexing, in microseconds since the UNIX epoch.
#[derive(Debug)]
pub struct IndexedEvent {
    pub id: String,
    pub ledger_sequence: u32,
    pub match_id: u64,
    pub event_type: String,
    pub player1: Option<String>,
    pub player2: Option<String>,
    pub status: Option<String>,
    pub winner: Option<String>,
    pub stake_amount: Option<String>,
    pub token: Option<String>,
    pub game_id: Option<String>,
    pub platform: Option<String>,
    pub timestamp: i64,
    pub txn_hash: Option<String>,
}

/// A copy of an optional text.
pub fn clone_text(o: &Option<String>) -> (r: Option<String>)
    ensures
        r == *o,
{
    match o {
        Some(s) => Some(s.clone()),
        None => None,
    }
}

impl Clone for IndexedEvent {
    fn clone(&self) -> (r: Self)
        ensures
            r == *self,
    {
        IndexedEvent {
            id: self.id.clone(),
            ledger_sequence: self.ledger_sequence,
            match_id: self.match_id,
            event_type: self.event_type.clone(),
            player1: clone_text(&self.player1),
            player2: clone_text(&self.player2),
            status: clone_text(&self.status),
            winner: clone_text(&self.winner),
            stake_amount: clone_text(&self.stake_amount),
            token: clone_text(&self.token),
            game_id: clone_text(&self.game_id),
            platform: clone_text(&self.platform),
            timestamp: self.timestamp,
            txn_hash: clone_text(&self.txn_hash),
        }
    }
}

/// Everything the indexer knows about one match.
#[derive(Debug)]
pub struct MatchInfo {
    pub match_id: u64,
    pub player1: String,
    pub player2: String,
    pub status: MatchStatus,
    pub winner: Option<Winner>,
    pub stake_amount: String,
    pub token: String,
    pub game_id: String,
    pub platform: String,
    pub created_ledger: u32,
    pub completed_ledger: Option<u32>,
    pub events: Vec<IndexedEvent>,
}

/// Filters of an event query. Dates are microseconds since the UNIX epoch.
#[derive(Debug)]
pub struct QueryFilters {
    pub player_address: Option<String>,
    pub status: Option<MatchStatus>,
    pub start_date: Option<i64>,
    pub end_date: Option<i64>,
    pub limit: Option<i64>,
    pub offset: Option<i64>,
}

} // verus!
