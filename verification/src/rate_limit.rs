use vstd::prelude::*;

use crate::oracle::{OracleContract, OracleEvent};

verus! {

/// Default maximum submissions accepted from a single oracle per rolling hour.
pub const DEFAULT_HOURLY_LIMIT: u32 = 100;

/// Default maximum submissions accepted from a single oracle per rolling day.
pub const DEFAULT_DAILY_LIMIT: u32 = 1000;

/// Length of the hourly rate-limit window, in seconds.
pub const HOURLY_WINDOW_SECS: u64 = 3600;

/// Length of the daily rate-limit window, in seconds.
pub const DAILY_WINDOW_SECS: u64 = 86400;

/// A suspicious-pattern alert is raised once usage reaches this percentage of a limit.
pub const RATE_LIMIT_ALERT_THRESHOLD_PCT: u64 = 80;

/// Hourly and daily submission limits of one oracle.
#[derive(Clone, Copy, Debug, PartialEq, Eq, Structural)]
pub struct RateLimitConfig {
    pub hourly_limit: u32,
    pub daily_limit: u32,
}

/// Current usage and remaining quota of one oracle.
#[derive(Clone, Copy, Debug, PartialEq, Eq, Structural)]
pub struct RateLimitStatus {
    pub hourly_used: u32,
    pub hourly_limit: u32,
    pub hourly_remaining: u32,
    pub daily_used: u32,
    pub daily_limit: u32,
    pub daily_remaining: u32,
}

/// A sliding-window counter: submissions since `window_start`, and in the
/// window immediately before it.
#[derive(Clone, Copy, Debug, PartialEq, Eq, Structural)]
pub struct RateWindow {
    pub window_start: u64,
    pub current_count: u32,
    pub previous_count: u32,
}

/// Which of the two windows an alert is about.
#[derive(Clone, Copy, Debug, PartialEq, Eq, Structural)]
pub enum RateWindowKind {
    Hourly,
    Daily,
}

/// The limits used when the admin has not configured an oracle.
pub open spec fn default_config() -> RateLimitConfig {
    RateLimitConfig { hourly_limit: DEFAULT_HOURLY_LIMIT, daily_limit: DEFAULT_DAILY_LIMIT }
}

/// The limits that `set_oracle_rate_limits(hourly, daily)` configures: a
/// zero stands for the contract default.
pub open spec fn requested_config(hourly_limit: u32, daily_limit: u32) -> RateLimitConfig {
    RateLimitConfig {
        hourly_limit: if hourly_limit == 0 {
            DEFAULT_HOURLY_LIMIT
        } else {
            hourly_limit
        },
        daily_limit: if daily_limit == 0 {
            DEFAULT_DAILY_LIMIT
        } else {
            daily_limit
        },
    }
}

/// A window that starts at `now` with nothing counted.
pub open spec fn fresh_window(now: u64) -> RateWindow {
    RateWindow { window_start: now, current_count: 0, previous_count: 0 }
}

/// Seconds from the window's start to `now`, or 0 when `now` lies before it.
pub open spec fn elapsed_since(now: u64, w: RateWindow) -> int {
    if now >= w.window_start {
        now - w.window_start
    } else {
        0
    }
}

/// The stored window (or a fresh one) as it stands at `now`: unchanged while
/// within its window, shifted by one window (current becoming previous) once
/// one window has elapsed, and reset once two have.
pub open spec fn rolled_window(stored: Option<RateWindow>, now: u64, window_secs: u64) -> RateWindow {
    let w = match stored {
        Some(w) => w,
        None => fresh_window(now),
    };
    if elapsed_since(now, w) >= 2 * window_secs {
        fresh_window(now)
    } else if elapsed_since(now, w) >= window_secs {
        RateWindow {
            window_start: (w.window_start + window_secs) as u64,
            current_count: 0,
            previous_count: w.current_count,
        }
    } else {
        w
    }
}

/// The part of the current window that has elapsed at `now`, at most the whole window.
pub open spec fn elapsed_in_window(now: u64, w: RateWindow, window_secs: u64) -> int {
    if elapsed_since(now, w) < window_secs {
        elapsed_since(now, w)
    } else {
        window_secs as int
    }
}

/// The previous window's count weighted by the share of it still inside the lookback period.
pub open spec fn previous_weight(now: u64, w: RateWindow, window_secs: u64) -> int {
    (w.previous_count * (window_secs - elapsed_in_window(now, w, window_secs))) / (window_secs as int)
}

/// Sliding-window estimate of the submissions in the lookback period ending at `now`.
pub open spec fn estimated_usage(now: u64, w: RateWindow, window_secs: u64) -> int {
    w.current_count + previous_weight(now, w, window_secs)
}

/// The arithmetic of the estimate stays within the machine integers.
pub open spec fn estimate_fits(now: u64, w: RateWindow, window_secs: u64) -> bool {
    &&& w.previous_count * (window_secs - elapsed_in_window(now, w, window_secs)) <= u64::MAX
    &&& estimated_usage(now, w, window_secs) <= u32::MAX
}

proof fn lemma_weight_bounds(p: int, r: int, ws: int)
    requires
        0 <= p,
        0 <= r <= ws,
        0 < ws,
    ensures
        0 <= (p * r) / ws <= p,
{
    assert(0 <= p * r <= p * ws) by (nonlinear_arith)
        requires
            0 <= p,
            0 <= r <= ws,
    ;
    assert((p * r) / ws <= p) by (nonlinear_arith)
        requires
            0 <= p * r <= p * ws,
            0 < ws,
    ;
    assert(0 <= (p * r) / ws) by (nonlinear_arith)
        requires
            0 <= p * r,
            0 < ws,
    ;
}

/// For the hourly and daily windows the weighted product never leaves `u64`.
pub proof fn lemma_product_fits(now: u64, w: RateWindow, window_secs: u64)
    requires
        0 < window_secs <= DAILY_WINDOW_SECS,
    ensures
        w.previous_count * (window_secs - elapsed_in_window(now, w, window_secs)) <= u64::MAX,
        0 <= previous_weight(now, w, window_secs) <= w.previous_count,
{
    let p = w.previous_count as int;
    let r = window_secs - elapsed_in_window(now, w, window_secs);
    assert(p * r <= 0xffff_ffff * 86400) by (nonlinear_arith)
        requires
            0 <= p <= 0xffff_ffff,
            0 <= r <= 86400,
    ;
    lemma_weight_bounds(p, r, window_secs as int);
}



/// `used.saturating_add(count) <= limit`: the submissions still fit the limit.
pub open spec fn admitted(used: int, count: u32, limit: u32) -> bool {
    if used + count > u32::MAX {
        u32::MAX <= limit
    } else {
        used + count <= limit
    }
}

/// The hourly window of record `q` as it stands at `now`.
pub open spec fn hourly_at(q: Option<OracleQuota>, now: u64) -> RateWindow {
    rolled_window(hourly_of(q), now, HOURLY_WINDOW_SECS)
}

/// The daily window of record `q` as it stands at `now`.
pub open spec fn daily_at(q: Option<OracleQuota>, now: u64) -> RateWindow {
    rolled_window(daily_of(q), now, DAILY_WINDOW_SECS)
}

/// Estimated hourly usage of record `q` at `now`.
pub open spec fn hourly_used(q: Option<OracleQuota>, now: u64) -> int {
    estimated_usage(now, hourly_at(q, now), HOURLY_WINDOW_SECS)
}

/// Estimated daily usage of record `q` at `now`.
pub open spec fn daily_used(q: Option<OracleQuota>, now: u64) -> int {
    estimated_usage(now, daily_at(q, now), DAILY_WINDOW_SECS)
}

/// Both limits of record `q` can absorb `count` more submissions at `now`.
pub open spec fn rate_admits(q: Option<OracleQuota>, now: u64, count: u32) -> bool {
    &&& admitted(hourly_used(q, now), count, config_of(q).hourly_limit)
    &&& admitted(daily_used(q, now), count, config_of(q).daily_limit)
}

/// The usage estimates of record `q` at `now` are machine integers.
pub open spec fn usage_fits(q: Option<OracleQuota>, now: u64) -> bool {
    &&& hourly_used(q, now) <= u32::MAX
    &&& daily_used(q, now) <= u32::MAX
}

/// Checking and recording `count` submissions for record `q` at `now` stays
/// within the machine integers: the daily window is only looked at once the
/// hourly limit has admitted the submissions, and the counts only grow once
/// both limits have.
pub open spec fn rate_fits(q: Option<OracleQuota>, now: u64, count: u32) -> bool {
    &&& hourly_used(q, now) <= u32::MAX
    &&& admitted(hourly_used(q, now), count, config_of(q).hourly_limit) ==> {
        &&& daily_used(q, now) <= u32::MAX
        &&& admitted(daily_used(q, now), count, config_of(q).daily_limit) ==> {
            &&& hourly_used(q, now) + count <= u32::MAX
            &&& daily_used(q, now) + count <= u32::MAX
        }
    }
}

/// `w` with `count` more submissions in its current window.
pub open spec fn bumped(w: RateWindow, count: u32) -> RateWindow {
    RateWindow { current_count: (w.current_count + count) as u32, ..w }
}

/// The record of `oracle` after `count` submissions were recorded at `now`.
pub open spec fn recorded_quota(oracle: String, q: Option<OracleQuota>, now: u64, count: u32) -> OracleQuota {
    OracleQuota {
        oracle,
        limits: limits_of(q),
        hourly: Some(bumped(hourly_at(q, now), count)),
        daily: Some(bumped(daily_at(q, now), count)),
    }
}

/// The alert raised when `used` reaches the threshold share of a non-zero `limit`.
pub open spec fn alert_for(oracle: String, window: RateWindowKind, used: int, limit: u32) -> Seq<OracleEvent> {
    if limit != 0 && used * 100 >= limit * RATE_LIMIT_ALERT_THRESHOLD_PCT {
        seq![OracleEvent::RateAlert { oracle, window, used: used as u32, limit }]
    } else {
        seq![]
    }
}

/// The alerts raised when `count` submissions of `oracle` are recorded at `now`.
pub open spec fn rate_alerts(oracle: String, q: Option<OracleQuota>, now: u64, count: u32) -> Seq<OracleEvent> {
    alert_for(oracle, RateWindowKind::Hourly, hourly_used(q, now) + count, config_of(q).hourly_limit)
        + alert_for(oracle, RateWindowKind::Daily, daily_used(q, now) + count, config_of(q).daily_limit)
}

/// Everything the contract stores about one oracle address: its configured
/// limits (if the admin set any) and its two sliding windows (once it has
/// submitted).
pub struct OracleQuota {
    pub oracle: String,
    pub limits: Option<RateLimitConfig>,
    pub hourly: Option<RateWindow>,
    pub daily: Option<RateWindow>,
}

/// The first stored record of oracle `o`, if any.
pub open spec fn find_quota(s: Seq<OracleQuota>, o: Seq<char>) -> Option<OracleQuota>
    decreases s.len(),
{
    if s.len() == 0 {
        None
    } else if s[0].oracle@ == o {
        Some(s[0])
    } else {
        find_quota(s.drop_first(), o)
    }
}

/// The limits in force for an oracle with record `q`.
pub open spec fn config_of(q: Option<OracleQuota>) -> RateLimitConfig {
    match q {
        Some(q) => match q.limits {
            Some(c) => c,
            None => default_config(),
        },
        None => default_config(),
    }
}

/// The stored hourly window of record `q`.
pub open spec fn hourly_of(q: Option<OracleQuota>) -> Option<RateWindow> {
    match q {
        Some(q) => q.hourly,
        None => None,
    }
}

/// The stored daily window of record `q`.
pub open spec fn daily_of(q: Option<OracleQuota>) -> Option<RateWindow> {
    match q {
        Some(q) => q.daily,
        None => None,
    }
}

/// The configured limits of record `q`, if the admin set any.
pub open spec fn limits_of(q: Option<OracleQuota>) -> Option<RateLimitConfig> {
    match q {
        Some(q) => q.limits,
        None => None,
    }
}

pub proof fn lemma_find_at(s: Seq<OracleQuota>, o: Seq<char>, i: int)
    requires
        0 <= i < s.len(),
        s[i].oracle@ == o,
        forall|j: int| 0 <= j < i ==> s[j].oracle@ != o,
    ensures
        find_quota(s, o) == Some(s[i]),
    decreases i,
{
    if i > 0 {
        lemma_find_at(s.drop_first(), o, i - 1);
    }
}

pub proof fn lemma_find_none(s: Seq<OracleQuota>, o: Seq<char>)
    requires
        forall|j: int| 0 <= j < s.len() ==> s[j].oracle@ != o,
    ensures
        find_quota(s, o) is None,
    decreases s.len(),
{
    if s.len() > 0 {
        lemma_find_none(s.drop_first(), o);
    }
}

proof fn lemma_find_update(s: Seq<OracleQuota>, i: int, q: OracleQuota, o: Seq<char>)
    requires
        0 <= i < s.len(),
        s[i].oracle@ == q.oracle@,
        forall|j: int| 0 <= j < i ==> s[j].oracle@ != q.oracle@,
    ensures
        find_quota(s.update(i, q), o) == if o == q.oracle@ {
            Some(q)
        } else {
            find_quota(s, o)
        },
    decreases i,
{
    if i == 0 {
        assert(s.update(0, q).drop_first() =~= s.drop_first());
    } else {
        assert(s.update(i, q).drop_first() =~= s.drop_first().update(i - 1, q));
        lemma_find_update(s.drop_first(), i - 1, q, o);
    }
}

proof fn lemma_find_push(s: Seq<OracleQuota>, q: OracleQuota, o: Seq<char>)
    requires
        forall|j: int| 0 <= j < s.len() ==> s[j].oracle@ != q.oracle@,
    ensures
        find_quota(s.push(q), o) == if o == q.oracle@ {
            Some(q)
        } else {
            find_quota(s, o)
        },
    decreases s.len(),
{
    if s.len() == 0 {
        assert(s.push(q).drop_first() =~= s);
    } else {
        assert(s.push(q).drop_first() =~= s.drop_first().push(q));
        lemma_find_push(s.drop_first(), q, o);
    }
}

/// The per-oracle rate-limit records of the contract.
pub struct RateLimiter {
    quotas: Vec<OracleQuota>,
}

impl View for RateLimiter {
    type V = Seq<OracleQuota>;

    closed spec fn view(&self) -> Seq<OracleQuota> {
        self.quotas@
    }
}

impl RateLimiter {
    /// The record of oracle `o`.
    pub open spec fn quota(&self, o: Seq<char>) -> Option<OracleQuota> {
        find_quota(self@, o)
    }

    /// A limiter that knows no oracle.
    pub fn new() -> (r: Self)
        ensures
            r@ == Seq::<OracleQuota>::empty(),
    {
        RateLimiter { quotas: Vec::new() }
    }

    fn index_of(&self, oracle: &String) -> (r: Option<usize>)
        ensures
            match r {
                Some(i) => {
                    &&& i < self@.len()
                    &&& self@[i as int].oracle@ == oracle@
                    &&& forall|j: int| 0 <= j < i ==> self@[j].oracle@ != oracle@
                },
                None => forall|j: int| 0 <= j < self@.len() ==> self@[j].oracle@ != oracle@,
            },
    {
        let n = self.quotas.len();
        let mut i: usize = 0;
        while i < n
            invariant
                n == self.quotas@.len(),
                i <= n,
                forall|j: int| 0 <= j < i ==> self.quotas@[j].oracle@ != oracle@,
            decreases n - i,
        {
            if self.quotas[i].oracle == *oracle {
                return Some(i);
            }
            i = i + 1;
        }
        None
    }

    /// The stored limits and windows of oracle `oracle`.
    pub fn stored(&self, oracle: &String) -> (r: (
        Option<RateLimitConfig>,
        Option<RateWindow>,
        Option<RateWindow>,
    ))
        ensures
            r.0 == limits_of(self.quota(oracle@)),
            r.1 == hourly_of(self.quota(oracle@)),
            r.2 == daily_of(self.quota(oracle@)),
    {
        match self.index_of(oracle) {
            Some(i) => {
                proof {
                    lemma_find_at(self@, oracle@, i as int);
                }
                let q = &self.quotas[i];
                (q.limits, q.hourly, q.daily)
            },
            None => {
                proof {
                    lemma_find_none(self@, oracle@);
                }
                (None, None, None)
            },
        }
    }

    /// Store `q` as the record of its oracle, replacing any earlier one.
    pub fn put(&mut self, q: OracleQuota)
        ensures
            forall|o: Seq<char>|
                #![trigger find_quota(final(self)@, o)]
                find_quota(final(self)@, o) == if o == q.oracle@ {
                    Some(q)
                } else {
                    find_quota(old(self)@, o)
                },
    {
        match self.index_of(&q.oracle) {
            Some(i) => {
                let ghost s = self@;
                let ghost qq = q;
                self.quotas.set(i, q);
                proof {
                    assert forall|o: Seq<char>|
                        #![trigger find_quota(self@, o)]
                        find_quota(self@, o) == if o == qq.oracle@ {
                            Some(qq)
                        } else {
                            find_quota(s, o)
                        } by {
                        lemma_find_update(s, i as int, qq, o);
                    }
                }
            },
            None => {
                let ghost s = self@;
                let ghost qq = q;
                self.quotas.push(q);
                proof {
                    assert forall|o: Seq<char>|
                        #![trigger find_quota(self@, o)]
                        find_quota(self@, o) == if o == qq.oracle@ {
                            Some(qq)
                        } else {
                            find_quota(s, o)
                        } by {
                        lemma_find_push(s, qq, o);
                    }
                }
            },
        }
    }
}

impl OracleContract {
    /// Estimate the submission count within the sliding lookback window: the
    /// current window's count plus the previous window's count weighted by the
    /// fraction of the previous window still inside the lookback period.
    pub fn estimated_window_count(now: u64, window: &RateWindow, window_secs: u64) -> (used: u32)
        requires
            window_secs > 0,
            estimate_fits(now, *window, window_secs),
        ensures
            used == estimated_usage(now, *window, window_secs),
    {
        let since = now.saturating_sub(window.window_start);
        let elapsed_in_current = if since < window_secs {
            since
        } else {
            window_secs
        };
        let remaining = window_secs - elapsed_in_current;
        proof {
            lemma_weight_bounds(
                window.previous_count as int,
                remaining as int,
                window_secs as int,
            );
        }
        let weighted_previous = (window.previous_count as u64 * remaining) / window_secs;
        window.current_count + weighted_previous as u32
    }

    /// Roll a stored sliding-window counter (or a fresh one) forward to `now`.
    pub fn load_rate_window(stored: Option<RateWindow>, now: u64, window_secs: u64) -> (w: RateWindow)
        requires
            window_secs <= u64::MAX / 2,
        ensures
            w == rolled_window(stored, now, window_secs),
    {
        let window = match stored {
            Some(w) => w,
            None => RateWindow { window_start: now, current_count: 0, previous_count: 0 },
        };
        let elapsed = now.saturating_sub(window.window_start);
        if elapsed >= window_secs * 2 {
            RateWindow { window_start: now, current_count: 0, previous_count: 0 }
        } else if elapsed >= window_secs {
            RateWindow {
                window_start: window.window_start + window_secs,
                current_count: 0,
                previous_count: window.current_count,
            }
        } else {
            window
        }
    }
}

} // verus!
