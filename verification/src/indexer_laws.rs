use vstd::prelude::*;

use crate::chess_com::{valid_game_id, winner_of_result};
use crate::db::{match_info_from, query_params, status_from_text, status_text, winner_from_text};
use crate::escrow::Winner as ResultWinner;
use crate::models::{IndexedEvent, MatchInfo, MatchStatus, QueryFilters, Winner};
use crate::rpc::{fields_of, opt_view, status_of_type, winner_of_type, EventFields};
use crate::text::{lemma_digits_value_nonneg, parsed_unsigned};
use crate::text::occurs_in;

verus! {

/// The status an event type is given names the lifecycle step in the type:
/// `created` gives `pending`, `activated` and `deposit` give `active`, and
/// `completed`, `cancelled` and `expired` give themselves, the first keyword
/// in that order deciding; a type with none of them gives no status.
pub proof fn law_status_names_the_event_keyword(t: Seq<char>)
    ensures
        occurs_in("created"@, t) ==> status_of_type(t) == Some("pending"@),
        !occurs_in("created"@, t) && occurs_in("activated"@, t) ==> status_of_type(t) == Some(
            "active"@,
        ),
        !occurs_in("created"@, t) && !occurs_in("activated"@, t) && occurs_in("deposit"@, t)
            ==> status_of_type(t) == Some("active"@),
        !occurs_in("created"@, t) && !occurs_in("activated"@, t) && !occurs_in("deposit"@, t)
            && occurs_in("completed"@, t) ==> status_of_type(t) == Some("completed"@),
        !occurs_in("created"@, t) && !occurs_in("activated"@, t) && !occurs_in("deposit"@, t)
            && !occurs_in("completed"@, t) && occurs_in("cancelled"@, t) ==> status_of_type(t)
            == Some("cancelled"@),
        !occurs_in("created"@, t) && !occurs_in("activated"@, t) && !occurs_in("deposit"@, t)
            && !occurs_in("completed"@, t) && !occurs_in("cancelled"@, t) && occurs_in(
            "expired"@,
            t,
        ) ==> status_of_type(t) == Some("expired"@),
        !occurs_in("created"@, t) && !occurs_in("activated"@, t) && !occurs_in("deposit"@, t)
            && !occurs_in("completed"@, t) && !occurs_in("cancelled"@, t) && !occurs_in(
            "expired"@,
            t,
        ) ==> status_of_type(t) is None,
        winner_of_type(t, Seq::empty()) is None,
{
}

/// A status filter binds the very text that indexing stores for events of
/// that status: reading the bound text back gives the status filtered for,
/// for every status, and every status text indexing stores reads back as a
/// status whose filter binds that same text.
pub proof fn law_status_filter_matches_stored_status(s: MatchStatus, t: Seq<char>, filters: QueryFilters)
    ensures
        status_from_text(Some(status_text(s))) == s,
        status_of_type(t) matches Some(x) ==> status_text(status_from_text(Some(x))) == x,
        filters.player_address is None && filters.status == Some(s) ==> query_params(filters)[0]
            == Ok::<Seq<char>, i64>(status_text(s)),
{
    reveal_strlit("pending");
    reveal_strlit("active");
    reveal_strlit("completed");
    reveal_strlit("cancelled");
    reveal_strlit("expired");
    // The five status texts differ in their first two letters.
    assert("pending"@[0] == 'p' && "active"@[0] == 'a' && "completed"@[0] == 'c' && "cancelled"@[0]
        == 'c' && "expired"@[0] == 'e');
    assert("completed"@[1] == 'o' && "cancelled"@[1] == 'a');
    if filters.player_address is None && filters.status == Some(s) {
        let p = query_params(filters);
        assert(p[0] == Ok::<Seq<char>, i64>(status_text(s)));
    }
}

/// The summary of a match copies each of the creation event's fields into
/// the field of the same name (an absent field gives the empty text), and
/// records the ledger of the creation event.
pub proof fn law_match_info_copies_creation_fields(
    match_id: u64,
    events: Seq<IndexedEvent>,
    created: IndexedEvent,
    info: MatchInfo,
)
    requires
        match_info_from(match_id, events, created, info),
    ensures
        info.match_id == match_id,
        created.player1 matches Some(p) ==> info.player1@ == p@,
        created.player1 is None ==> info.player1@.len() == 0,
        created.player2 matches Some(p) ==> info.player2@ == p@,
        created.player2 is None ==> info.player2@.len() == 0,
        created.stake_amount matches Some(v) ==> info.stake_amount@ == v@,
        created.stake_amount is None ==> info.stake_amount@.len() == 0,
        created.token matches Some(v) ==> info.token@ == v@,
        created.token is None ==> info.token@.len() == 0,
        created.game_id matches Some(g) ==> info.game_id@ == g@,
        created.game_id is None ==> info.game_id@.len() == 0,
        created.platform matches Some(p) ==> info.platform@ == p@,
        created.platform is None ==> info.platform@.len() == 0,
        info.created_ledger == created.ledger_sequence,
{
}

/// A Chess.com game id is accepted exactly when it is non-empty and every
/// character is one of the ASCII digits `0` to `9`.
pub proof fn law_game_ids_are_digit_strings(game_id: Seq<char>)
    ensures
        valid_game_id(game_id) <==> (game_id.len() > 0 && forall|i: int|
            0 <= i < game_id.len() ==> '0' <= #[trigger] game_id[i] && game_id[i] <= '9'),
{
}

/// The fields of an event come from fixed slots of its data: the match id
/// from slot 0 (read as a `u64`, else 0), the players from slots 1 and 2,
/// the stake, token, game id and platform from slots 3 to 6; a completion
/// event reports the winner in slot 1, any other event none.
pub proof fn law_event_fields_come_from_their_data_slots(
    t: Seq<char>,
    data: Seq<Option<String>>,
    f: EventFields,
)
    requires
        fields_of(t, data, f),
    ensures
        (data.len() > 0 && data[0] is Some && parsed_unsigned(data[0]->0@, u64::MAX as int) is Some)
            ==> f.0 == parsed_unsigned(data[0]->0@, u64::MAX as int)->0,
        data.len() == 0 || data[0] is None ==> f.0 == 0,
        data.len() > 1 ==> opt_view(f.1) == opt_view(data[1]),
        data.len() > 2 ==> opt_view(f.2) == opt_view(data[2]),
        data.len() > 3 ==> opt_view(f.5) == opt_view(data[3]),
        data.len() > 4 ==> opt_view(f.6) == opt_view(data[4]),
        data.len() > 5 ==> opt_view(f.7) == opt_view(data[5]),
        data.len() > 6 ==> opt_view(f.8) == opt_view(data[6]),
        data.len() <= 6 ==> f.8 is None,
        data.len() <= 5 ==> f.7 is None,
        !occurs_in("completed"@, t) ==> f.4 is None,
        status_of_type(t) == Some("completed"@) && data.len() > 1 ==> opt_view(f.4) == opt_view(
            data[1],
        ),
        opt_view(f.3) == status_of_type(t),
{
    if data.len() > 0 && data[0] is Some {
        let s = data[0]->0@;
        let digits = if s.len() > 0 && s[0] == '+' {
            s.drop_first()
        } else {
            s
        };
        if parsed_unsigned(s, u64::MAX as int) is Some {
            lemma_digits_value_nonneg(digits);
        }
    }
    reveal_strlit("completed");
    reveal_strlit("pending");
    reveal_strlit("active");
    assert("completed"@[0] == 'c' && "pending"@[0] == 'p' && "active"@[0] == 'a');
}

/// Stored winner texts and Chess.com results name the winners they say:
/// `player1`/`white` is the first player, `player2`/`black` the second,
/// `draw` a draw, and no other text names a winner.
pub proof fn law_winner_texts_name_their_winner(t: Seq<char>)
    ensures
        winner_from_text(Some("player1"@)) == Some(Winner::Player1),
        winner_from_text(Some("player2"@)) == Some(Winner::Player2),
        winner_from_text(Some("draw"@)) == Some(Winner::Draw),
        t != "player1"@ && t != "player2"@ && t != "draw"@ ==> winner_from_text(Some(t)) is None,
        winner_of_result("white"@) == Some(ResultWinner::Player1),
        winner_of_result("black"@) == Some(ResultWinner::Player2),
        winner_of_result("draw"@) == Some(ResultWinner::Draw),
        t != "white"@ && t != "black"@ && t != "draw"@ ==> winner_of_result(t) is None,
{
    reveal_strlit("player1");
    reveal_strlit("player2");
    reveal_strlit("draw");
    reveal_strlit("white");
    reveal_strlit("black");
    assert("player1"@[6] == '1' && "player2"@[6] == '2');
    assert("draw"@[0] == 'd' && "white"@[0] == 'w' && "black"@[0] == 'b');
}

} // verus!
