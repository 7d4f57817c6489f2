use vstd::prelude::*;

use crate::oracle::{
    batch_results, entry_error, entry_result, first_entry_error, signed_by, BatchResultEntry,
    Invocation, OracleError, OracleModel, ResultEntry,
};
use crate::escrow::{Platform, Winner};
use crate::rate_limit::{
    bumped, config_of, daily_at, daily_used, elapsed_since, estimated_usage, fresh_window,
    hourly_at, hourly_used, previous_weight, rate_admits, rate_fits, recorded_quota,
    requested_config, rolled_window, elapsed_in_window, OracleQuota, RateWindow, DAILY_WINDOW_SECS,
    HOURLY_WINDOW_SECS,
};

verus! {

/// While the contract is paused, neither a single result nor a batch is
/// accepted: both are answered `ContractPaused`.
pub proof fn law_paused_blocks_submissions(
    m: OracleModel,
    inv: Invocation,
    match_id: u64,
    game_id: Seq<char>,
    es: Seq<BatchResultEntry>,
)
    requires
        m.paused,
    ensures
        m.submit_error(inv, match_id, game_id) == Some(OracleError::ContractPaused),
        m.batch_error(inv, es) == Some(OracleError::ContractPaused),
{
}

/// A result accepted by `submit_result` is what is read back for its match,
/// and every other match keeps what it had.
pub proof fn law_submitted_result_is_read_back(
    before: OracleModel,
    after: OracleModel,
    inv: Invocation,
    match_id: u64,
    game_id: String,
    platform: Platform,
    result: Winner,
)
    requires
        before.submit_error(inv, match_id, game_id@) is None,
        before.submitted(after, inv, match_id, game_id, platform, result),
    ensures
        after.results.contains_key(match_id),
        after.results[match_id] == (ResultEntry {
            game_id,
            platform,
            result,
            submitted_ledger: inv.sequence,
            submitter: before.admin->0,
        }),
        forall|k: u64|
            k != match_id ==> #[trigger] after.results.contains_key(k) == before.results.contains_key(
                k,
            ) && (before.results.contains_key(k) ==> after.results[k] == before.results[k]),
{
}

/// A match that already has a result is never given another one, neither
/// singly nor in a batch.
pub proof fn law_results_are_never_overwritten(
    m: OracleModel,
    inv: Invocation,
    match_id: u64,
    game_id: Seq<char>,
    es: Seq<BatchResultEntry>,
    i: int,
)
    requires
        m.results.contains_key(match_id),
        0 <= i < es.len(),
        es[i].match_id == match_id,
    ensures
        m.submit_error(inv, match_id, game_id) is Some,
        m.batch_error(inv, es) is Some,
{
    assert(entry_error(es, m.results, i) is Some);
    lemma_first_entry_error_finds(es, m.results, 0, i);
}

/// A refusal of any entry of a batch makes the first refusal exist.
proof fn lemma_first_entry_error_finds(
    es: Seq<BatchResultEntry>,
    results: Map<u64, ResultEntry>,
    from: int,
    k: int,
)
    requires
        0 <= from <= k < es.len(),
        entry_error(es, results, k) is Some,
    ensures
        first_entry_error(es, results, from) is Some,
    decreases k - from,
{
    if from < k && entry_error(es, results, from) is None {
        lemma_first_entry_error_finds(es, results, from + 1, k);
    }
}

/// When no entry of a batch is refused, no entry is refused.
proof fn lemma_no_entry_error(es: Seq<BatchResultEntry>, results: Map<u64, ResultEntry>, k: int)
    requires
        first_entry_error(es, results, 0) is None,
        0 <= k < es.len(),
    ensures
        entry_error(es, results, k) is None,
{
    if entry_error(es, results, k) is Some {
        lemma_first_entry_error_finds(es, results, 0, k);
    }
}

/// A batch in which two entries name the same match is refused as a whole.
pub proof fn law_batch_with_duplicate_is_refused(
    m: OracleModel,
    inv: Invocation,
    es: Seq<BatchResultEntry>,
    i: int,
    j: int,
)
    requires
        0 <= i < j < es.len(),
        es[i].match_id == es[j].match_id,
    ensures
        m.batch_error(inv, es) is Some,
{
    assert(entry_error(es, m.results, i) is Some);
    lemma_first_entry_error_finds(es, m.results, 0, i);
}

/// With pairwise distinct match ids, a batch records each entry under its own match.
proof fn lemma_batch_results_read_back(es: Seq<BatchResultEntry>, ledger: u32, submitter: String, i: int)
    requires
        0 <= i < es.len(),
        forall|a: int, b: int| 0 <= a < b < es.len() ==> es[a].match_id != es[b].match_id,
    ensures
        batch_results(es, ledger, submitter).contains_key(es[i].match_id),
        batch_results(es, ledger, submitter)[es[i].match_id] == entry_result(es[i], ledger, submitter),
    decreases es.len(),
{
    if i < es.len() - 1 {
        let init = es.drop_last();
        assert(forall|a: int, b: int|
            0 <= a < b < init.len() ==> init[a].match_id != init[b].match_id) by {
            assert forall|a: int, b: int| 0 <= a < b < init.len() implies init[a].match_id
                != init[b].match_id by {
                assert(init[a] == es[a] && init[b] == es[b]);
            }
        }
        lemma_batch_results_read_back(init, ledger, submitter, i);
        assert(es[i].match_id != es.last().match_id);
    }
}

/// Every entry of an accepted batch is read back for its match, and every
/// match the batch does not name keeps what it had.
pub proof fn law_batch_results_are_read_back(
    before: OracleModel,
    after: OracleModel,
    inv: Invocation,
    es: Seq<BatchResultEntry>,
)
    requires
        before.batch_error(inv, es) is None,
        before.batch_submitted(after, inv, es),
    ensures
        forall|i: int|
            0 <= i < es.len() ==> #[trigger] after.results.contains_key(es[i].match_id)
                && after.results[es[i].match_id] == entry_result(
                es[i],
                inv.sequence,
                before.admin->0,
            ),
        forall|k: u64|
            (forall|i: int| 0 <= i < es.len() ==> #[trigger] es[i].match_id != k) ==> (
            #[trigger] after.results.contains_key(k) == before.results.contains_key(k) && (
            before.results.contains_key(k) ==> after.results[k] == before.results[k])),
{
    let a = before.admin->0;
    assert forall|x: int, y: int| 0 <= x < y < es.len() implies es[x].match_id != es[y].match_id by {
        lemma_no_entry_error(es, before.results, x);
    }
    assert forall|i: int| 0 <= i < es.len() implies #[trigger] after.results.contains_key(
        es[i].match_id,
    ) && after.results[es[i].match_id] == entry_result(es[i], inv.sequence, a) by {
        lemma_batch_results_read_back(es, inv.sequence, a, i);
    }
    assert forall|k: u64|
        (forall|i: int| 0 <= i < es.len() ==> #[trigger] es[i].match_id != k) implies !batch_results(
        es,
        inv.sequence,
        a,
    ).contains_key(k) by {
        lemma_batch_results_domain(es, inv.sequence, a, k);
    }
}

/// A batch records only the matches it names.
proof fn lemma_batch_results_domain(es: Seq<BatchResultEntry>, ledger: u32, submitter: String, k: u64)
    requires
        forall|i: int| 0 <= i < es.len() ==> #[trigger] es[i].match_id != k,
    ensures
        !batch_results(es, ledger, submitter).contains_key(k),
    decreases es.len(),
{
    if es.len() > 0 {
        let init = es.drop_last();
        assert forall|i: int| 0 <= i < init.len() implies #[trigger] init[i].match_id != k by {
            assert(init[i] == es[i]);
        }
        lemma_batch_results_domain(init, ledger, submitter, k);
        assert(es[es.len() - 1].match_id != k);
    }
}

/// After a rotation to `new_admin`, an admin-only call is authorized
/// exactly when `new_admin` signed it.
pub proof fn law_rotated_admin_alone_is_authorized(after: OracleModel, new_admin: String, later: Invocation)
    requires
        after.admin == Some(new_admin),
    ensures
        after.admin_error(later) is None <==> signed_by(later, new_admin@),
{
}

/// Limits configured for an oracle are the ones read back for it, a zero
/// standing for the contract default.
pub proof fn law_configured_limits_are_read_back(
    oracle: String,
    hourly_limit: u32,
    daily_limit: u32,
    hourly: Option<RateWindow>,
    daily: Option<RateWindow>,
)
    ensures
        config_of(
            Some(
                OracleQuota {
                    oracle,
                    limits: Some(requested_config(hourly_limit, daily_limit)),
                    hourly,
                    daily,
                },
            ),
        ) == requested_config(hourly_limit, daily_limit),
        requested_config(hourly_limit, daily_limit).hourly_limit != 0,
        requested_config(hourly_limit, daily_limit).daily_limit != 0,
{
}

/// The sliding-window estimate lies between the current window's count and
/// the sum of both windows' counts.
pub proof fn law_estimate_bounds(now: u64, w: RateWindow, window_secs: u64)
    requires
        0 < window_secs <= DAILY_WINDOW_SECS,
    ensures
        w.current_count <= estimated_usage(now, w, window_secs) <= w.current_count + w.previous_count,
{
    crate::rate_limit::lemma_product_fits(now, w, window_secs);
}

/// Two full windows after a window began, nothing recorded in it counts any more.
pub proof fn law_window_clears_after_two_windows(w: RateWindow, now: u64, window_secs: u64)
    requires
        0 < window_secs,
        now >= w.window_start + 2 * window_secs,
    ensures
        rolled_window(Some(w), now, window_secs) == fresh_window(now),
        estimated_usage(now, fresh_window(now), window_secs) == 0,
{
}

/// A window rolled to `now` stays as it is when rolled to `now` again, also
/// after more submissions are counted in it.
proof fn lemma_rolled_is_settled(stored: Option<RateWindow>, now: u64, window_secs: u64, count: u32)
    requires
        0 < window_secs <= DAILY_WINDOW_SECS,
        rolled_window(stored, now, window_secs).current_count + count <= u32::MAX,
    ensures
        rolled_window(
            Some(bumped(rolled_window(stored, now, window_secs), count)),
            now,
            window_secs,
        ) == bumped(rolled_window(stored, now, window_secs), count),
        previous_weight(now, bumped(rolled_window(stored, now, window_secs), count), window_secs)
            == previous_weight(now, rolled_window(stored, now, window_secs), window_secs),
{
    let w = rolled_window(stored, now, window_secs);
    assert(elapsed_since(now, bumped(w, count)) < window_secs);
}

/// After `count` submissions are recorded at `now`, the usage seen at that
/// same moment is the earlier usage plus `count`, within both limits, and
/// the limits in force are unchanged.
pub proof fn law_recorded_usage_within_limits(
    oracle: String,
    q: Option<OracleQuota>,
    now: u64,
    count: u32,
)
    requires
        rate_admits(q, now, count),
        rate_fits(q, now, count),
    ensures
        ({
            let after = Some(recorded_quota(oracle, q, now, count));
            &&& hourly_used(after, now) == hourly_used(q, now) + count
            &&& hourly_used(after, now) <= config_of(q).hourly_limit
            &&& daily_used(after, now) == daily_used(q, now) + count
            &&& daily_used(after, now) <= config_of(q).daily_limit
            &&& config_of(after) == config_of(q)
        }),
{
    crate::rate_limit::lemma_product_fits(now, hourly_at(q, now), HOURLY_WINDOW_SECS);
    crate::rate_limit::lemma_product_fits(now, daily_at(q, now), DAILY_WINDOW_SECS);
    lemma_rolled_is_settled(
        crate::rate_limit::hourly_of(q),
        now,
        HOURLY_WINDOW_SECS,
        count,
    );
    lemma_rolled_is_settled(crate::rate_limit::daily_of(q), now, DAILY_WINDOW_SECS, count);
}

/// Once a result is deleted, the match has no result and a new submission
/// for it is no longer refused as already submitted.
pub proof fn law_deleted_result_can_be_resubmitted(
    before: OracleModel,
    after: OracleModel,
    inv: Invocation,
    match_id: u64,
    game_id: Seq<char>,
)
    requires
        after.results == before.results.remove(match_id),
    ensures
        !after.results.contains_key(match_id),
        after.submit_error(inv, match_id, game_id) != Some(OracleError::AlreadySubmitted),
{
}

proof fn lemma_scaled_monotone(p: int, a: int, b: int, ws: int)
    requires
        0 <= p,
        0 <= a <= b,
        0 < ws,
    ensures
        (p * a) / ws <= (p * b) / ws,
        0 <= (p * a) / ws,
{
    assert(p * a <= p * b) by (nonlinear_arith)
        requires
            0 <= p,
            a <= b,
    ;
    assert(0 <= p * a) by (nonlinear_arith)
        requires
            0 <= p,
            0 <= a,
    ;
    assert((p * a) / ws <= (p * b) / ws) by (nonlinear_arith)
        requires
            p * a <= p * b,
            0 < ws,
    ;
    assert(0 <= (p * a) / ws) by (nonlinear_arith)
        requires
            0 <= p * a,
            0 < ws,
    ;
}

/// The usage of a stored window at `now`, after rolling it forward.
pub open spec fn usage_at(stored: Option<RateWindow>, now: u64, window_secs: u64) -> int {
    estimated_usage(now, rolled_window(stored, now, window_secs), window_secs)
}

proof fn lemma_usage_closed_form(w: RateWindow, now: u64, window_secs: u64)
    requires
        0 < window_secs,
    ensures
        ({
            let e = elapsed_since(now, w);
            let u = usage_at(Some(w), now, window_secs);
            &&& e < window_secs ==> u == w.current_count + (w.previous_count * (window_secs - e))
                / (window_secs as int)
            &&& window_secs <= e < 2 * window_secs ==> u == (w.current_count * (2 * window_secs
                - e)) / (window_secs as int)
            &&& e >= 2 * window_secs ==> u == 0
        }),
{
    let e = elapsed_since(now, w);
    let ws = window_secs as int;
    if window_secs <= e < 2 * window_secs {
        let r = rolled_window(Some(w), now, window_secs);
        assert(elapsed_since(now, r) == e - window_secs);
        assert(elapsed_in_window(now, r, window_secs) == e - ws);
        assert(ws - (e - ws) == 2 * ws - e);
        assert(r.previous_count == w.current_count);
        assert(r.current_count == 0);
    } else if e >= 2 * window_secs {
        let r = rolled_window(Some(w), now, window_secs);
        assert(r == fresh_window(now));
        let x = ws - elapsed_in_window(now, r, window_secs);
        assert((0 * x) / ws == 0) by (nonlinear_arith)
            requires
                0 < ws,
        ;
    }
}

/// While an oracle submits nothing, its usage of a window never grows as
/// time passes: the quota only recovers by waiting.
pub proof fn law_usage_never_grows_while_idle(
    stored: Option<RateWindow>,
    earlier: u64,
    later: u64,
    window_secs: u64,
)
    requires
        0 < window_secs <= DAILY_WINDOW_SECS,
        earlier <= later,
    ensures
        usage_at(stored, later, window_secs) <= usage_at(stored, earlier, window_secs),
        0 <= usage_at(stored, later, window_secs),
{
    match stored {
        None => {},
        Some(w) => {
            let ws = window_secs as int;
            let e1 = elapsed_since(earlier, w);
            let e2 = elapsed_since(later, w);
            assert(e1 <= e2);
            lemma_usage_closed_form(w, earlier, window_secs);
            lemma_usage_closed_form(w, later, window_secs);
            let c = w.current_count as int;
            let p = w.previous_count as int;
            if e2 >= 2 * ws {
                lemma_scaled_monotone(p, 0, 0, ws);
                lemma_scaled_monotone(c, 0, 0, ws);
                if e1 < ws {
                    lemma_scaled_monotone(p, ws - e1, ws - e1, ws);
                } else if e1 < 2 * ws {
                    lemma_scaled_monotone(c, 2 * ws - e1, 2 * ws - e1, ws);
                }
            } else if e2 >= ws {
                lemma_scaled_monotone(c, 2 * ws - e2, ws, ws);
                assert((c * ws) / ws == c) by (nonlinear_arith)
                    requires
                        0 < ws,
                ;
                if e1 < ws {
                    lemma_scaled_monotone(p, ws - e1, ws - e1, ws);
                } else {
                    lemma_scaled_monotone(c, 2 * ws - e2, 2 * ws - e1, ws);
                }
            } else {
                lemma_scaled_monotone(p, ws - e2, ws - e1, ws);
            }
        },
    }
}

/// For a fixed window, the sliding-window estimate never grows as time
/// passes: the previous window's share only shrinks.
pub proof fn law_estimate_never_grows_with_time(w: RateWindow, earlier: u64, later: u64, window_secs: u64)
    requires
        0 < window_secs,
        earlier <= later,
    ensures
        estimated_usage(later, w, window_secs) <= estimated_usage(earlier, w, window_secs),
{
    let ws = window_secs as int;
    let r1 = ws - elapsed_in_window(earlier, w, window_secs);
    let r2 = ws - elapsed_in_window(later, w, window_secs);
    assert(0 <= r2 <= r1);
    lemma_scaled_monotone(w.previous_count as int, r2, r1, ws);
}

/// Once a full window has passed since the window began, the previous
/// window no longer weighs in: the estimate is the current count.
pub proof fn law_estimate_settles_after_a_window(w: RateWindow, now: u64, window_secs: u64)
    requires
        0 < window_secs,
        now >= w.window_start + window_secs,
    ensures
        estimated_usage(now, w, window_secs) == w.current_count,
{
    let ws = window_secs as int;
    assert(elapsed_in_window(now, w, window_secs) == ws);
    assert((w.previous_count * 0int) / ws == 0) by (nonlinear_arith)
        requires
            0 < ws,
    ;
}

/// A result with an empty game id is never recorded: a submission of one is
/// always refused, with `InvalidGameId` once the contract is running, the
/// caller is the admin, the rate limits admit it and the match has no result
/// yet; and a batch entry with an empty game id is refused the same way.
pub proof fn law_empty_game_id_is_never_recorded(
    m: OracleModel,
    inv: Invocation,
    match_id: u64,
    game_id: Seq<char>,
    es: Seq<BatchResultEntry>,
    i: int,
)
    requires
        game_id.len() == 0,
    ensures
        m.submit_error(inv, match_id, game_id) is Some,
        !m.paused && m.admin is Some && signed_by(inv, m.admin->0@) && rate_admits(
            m.quota(m.admin->0@),
            inv.timestamp,
            1,
        ) && !m.results.contains_key(match_id) ==> m.submit_error(inv, match_id, game_id) == Some(
            OracleError::InvalidGameId,
        ),
        0 <= i < es.len() && es[i].game_id@.len() == 0 ==> entry_error(es, m.results, i) == Some(
            OracleError::InvalidGameId,
        ),
{
}

} // verus!
