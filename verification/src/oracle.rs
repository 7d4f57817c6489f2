use std::collections::HashMap;
use vstd::prelude::*;

use crate::escrow::{Platform, Winner};
use crate::rate_limit::{
    alert_for, config_of, daily_of, daily_used, find_quota, hourly_of,
    hourly_used, lemma_product_fits, rate_admits, requested_config, rate_alerts, rate_fits, recorded_quota,
    usage_fits, OracleQuota, RateLimitConfig, RateLimitStatus, RateLimiter, RateWindow, RateWindowKind,
    DAILY_WINDOW_SECS, DEFAULT_DAILY_LIMIT, DEFAULT_HOURLY_LIMIT, HOURLY_WINDOW_SECS,
};

verus! {

broadcast use vstd::std_specs::hash::group_hash_axioms;

/// Maximum number of entries accepted in a single batch submission.
pub const MAX_BATCH_SIZE: u32 = 100;

/// Lifetime of a stored result, in ledgers (~30 days at 5s/ledger).
pub const MATCH_TTL_LEDGERS: u32 = 518_400;

/// Lifetime of stored rate-limit windows, in ledgers (~2 days at 5s/ledger).
pub const RATE_LIMIT_TTL_LEDGERS: u32 = 34_560;

/// Errors reported by the oracle contract.
#[derive(Clone, Copy, Debug, PartialEq, Eq, Structural)]
pub enum OracleError {
    Unauthorized,
    AlreadySubmitted,
    ResultNotFound,
    AlreadyInitialized,
    ContractPaused,
    InvalidGameId,
    BatchTooLarge,
    BatchDuplicateEntry,
    RateLimitExceeded,
    InvalidRateLimit,
}

/// A verified match result as recorded on-chain.
#[derive(Debug)]
pub struct ResultEntry {
    pub game_id: String,
    pub platform: Platform,
    pub result: Winner,
    pub submitted_ledger: u32,
    pub submitter: String,
}

impl Clone for ResultEntry {
    fn clone(&self) -> (r: Self)
        ensures
            r == *self,
    {
        ResultEntry {
            game_id: self.game_id.clone(),
            platform: self.platform,
            result: self.result,
            submitted_ledger: self.submitted_ledger,
            submitter: self.submitter.clone(),
        }
    }
}

/// One entry of a batch submission.
#[derive(Debug)]
pub struct BatchResultEntry {
    pub match_id: u64,
    pub game_id: String,
    pub platform: Platform,
    pub result: Winner,
}

/// Events published by the oracle contract.
#[derive(Debug)]
pub enum OracleEvent {
    /// `oracle / init`: the contract was initialized with this admin.
    Initialized { admin: String },
    /// `oracle / result`: a result was recorded.
    ResultSubmitted { match_id: u64, result: Winner },
    /// `oracle / batch`: a batch of this many results was recorded.
    BatchSubmitted { count: u32 },
    /// `oracle / deleted`: a result was removed.
    ResultDeleted { match_id: u64 },
    /// `admin / admin_rot`: the admin was replaced.
    AdminRotated { old_admin: String, new_admin: String },
    /// `admin / paused`.
    Paused,
    /// `admin / unpaused`.
    Unpaused,
    /// `oracle / ratelim`: limits were configured for an oracle.
    RateLimitsSet { oracle: String, hourly_limit: u32, daily_limit: u32 },
    /// `oracle / alert`: an oracle's usage reached the alert threshold of a limit.
    RateAlert { oracle: String, window: RateWindowKind, used: u32, limit: u32 },
}

/// The context of one contract invocation: the ledger it runs in and the
/// addresses that authorized it.
pub struct Invocation {
    pub timestamp: u64,
    pub sequence: u32,
    pub signers: Vec<String>,
}

/// `inv` was authorized by address `a`.
pub open spec fn signed_by(inv: Invocation, a: Seq<char>) -> bool {
    exists|i: int| 0 <= i < inv.signers@.len() && #[trigger] inv.signers@[i]@ == a
}

impl Invocation {
    /// Whether `addr` authorized this invocation.
    pub fn is_signed_by(&self, addr: &String) -> (r: bool)
        ensures
            r == signed_by(*self, addr@),
    {
        let n = self.signers.len();
        let mut i: usize = 0;
        while i < n
            invariant
                n == self.signers@.len(),
                i <= n,
                forall|j: int| 0 <= j < i ==> self.signers@[j]@ != addr@,
            decreases n - i,
        {
            if self.signers[i] == *addr {
                return true;
            }
            i = i + 1;
        }
        false
    }
}


/// Why entry `i` of a batch is refused against the recorded `results`, if it is.
pub open spec fn entry_error(es: Seq<BatchResultEntry>, results: Map<u64, ResultEntry>, i: int) -> Option<
    OracleError,
> {
    if es[i].game_id@.len() == 0 {
        Some(OracleError::InvalidGameId)
    } else if exists|j: int| i < j < es.len() && #[trigger] es[j].match_id == es[i].match_id {
        Some(OracleError::BatchDuplicateEntry)
    } else if results.contains_key(es[i].match_id) {
        Some(OracleError::AlreadySubmitted)
    } else {
        None
    }
}

/// The first refusal among entries `from..` of a batch, if any.
pub open spec fn first_entry_error(
    es: Seq<BatchResultEntry>,
    results: Map<u64, ResultEntry>,
    from: int,
) -> Option<OracleError>
    decreases es.len() - from,
{
    if from < 0 || from >= es.len() {
        None
    } else {
        match entry_error(es, results, from) {
            Some(e) => Some(e),
            None => first_entry_error(es, results, from + 1),
        }
    }
}

/// The result recorded for batch entry `e`.
pub open spec fn entry_result(e: BatchResultEntry, ledger: u32, submitter: String) -> ResultEntry {
    ResultEntry {
        game_id: e.game_id,
        platform: e.platform,
        result: e.result,
        submitted_ledger: ledger,
        submitter,
    }
}

/// The results a batch records, by match id.
pub open spec fn batch_results(es: Seq<BatchResultEntry>, ledger: u32, submitter: String) -> Map<
    u64,
    ResultEntry,
>
    decreases es.len(),
{
    if es.len() == 0 {
        Map::empty()
    } else {
        batch_results(es.drop_last(), ledger, submitter).insert(
            es.last().match_id,
            entry_result(es.last(), ledger, submitter),
        )
    }
}

/// The per-entry events a batch publishes, in order.
pub open spec fn batch_events(es: Seq<BatchResultEntry>) -> Seq<OracleEvent> {
    Seq::new(
        es.len(),
        |i: int| OracleEvent::ResultSubmitted { match_id: es[i].match_id, result: es[i].result },
    )
}

proof fn lemma_rate_recorded_same_quotas(
    m: OracleModel,
    a1: OracleModel,
    a2: OracleModel,
    oracle: String,
    now: u64,
    count: u32,
)
    requires
        a1.quotas == a2.quotas,
        m.rate_recorded(a1, oracle, now, count),
    ensures
        m.rate_recorded(a2, oracle, now, count),
{
    assert forall|o: Seq<char>| #![trigger a2.quota(o)] a2.quota(o) == a1.quota(o) by {}
}

/// The abstract storage of the oracle contract.
pub ghost struct OracleModel {
    pub admin: Option<String>,
    pub paused: bool,
    pub results: Map<u64, ResultEntry>,
    pub quotas: Seq<OracleQuota>,
    pub events: Seq<OracleEvent>,
}

impl OracleModel {
    /// The rate-limit record of oracle `o`.
    pub open spec fn quota(self, o: Seq<char>) -> Option<OracleQuota> {
        find_quota(self.quotas, o)
    }

    /// Recording `count` submissions of the admin in `inv` stays within the
    /// machine integers, whenever the call gets as far as the rate check.
    pub open spec fn submission_fits(self, inv: Invocation, count: u32) -> bool {
        (!self.paused && self.admin_error(inv) is None) ==> rate_fits(
            self.quota(self.admin->0@),
            inv.timestamp,
            count,
        )
    }

    /// Why `submit_result` in `inv` is refused, if it is.
    pub open spec fn submit_error(self, inv: Invocation, match_id: u64, game_id: Seq<char>) -> Option<
        OracleError,
    > {
        if self.paused {
            Some(OracleError::ContractPaused)
        } else if self.admin_error(inv) is Some {
            self.admin_error(inv)
        } else if !rate_admits(self.quota(self.admin->0@), inv.timestamp, 1) {
            Some(OracleError::RateLimitExceeded)
        } else if self.results.contains_key(match_id) {
            Some(OracleError::AlreadySubmitted)
        } else if game_id.len() == 0 {
            Some(OracleError::InvalidGameId)
        } else {
            None
        }
    }

    /// Why `submit_batch_results` of `entries` in `inv` is refused, if it is.
    pub open spec fn batch_error(self, inv: Invocation, entries: Seq<BatchResultEntry>) -> Option<
        OracleError,
    > {
        if self.paused {
            Some(OracleError::ContractPaused)
        } else if self.admin_error(inv) is Some {
            self.admin_error(inv)
        } else if entries.len() > MAX_BATCH_SIZE {
            Some(OracleError::BatchTooLarge)
        } else if !rate_admits(self.quota(self.admin->0@), inv.timestamp, entries.len() as u32) {
            Some(OracleError::RateLimitExceeded)
        } else {
            first_entry_error(entries, self.results, 0)
        }
    }

    /// `after` records `count` more submissions of `oracle` at `now` than
    /// `self`, and holds every other oracle's record unchanged.
    pub open spec fn rate_recorded(self, after: OracleModel, oracle: String, now: u64, count: u32) -> bool {
        forall|o: Seq<char>|
            #![trigger after.quota(o)]
            after.quota(o) == if o == oracle@ {
                Some(recorded_quota(oracle, self.quota(oracle@), now, count))
            } else {
                self.quota(o)
            }
    }

    /// `after` is `self` with the result of `submit_result(match_id,
    /// game_id, platform, result)` in `inv` recorded.
    pub open spec fn submitted(
        self,
        after: OracleModel,
        inv: Invocation,
        match_id: u64,
        game_id: String,
        platform: Platform,
        result: Winner,
    ) -> bool {
        let a = self.admin->0;
        &&& after.results == self.results.insert(
            match_id,
            ResultEntry { game_id, platform, result, submitted_ledger: inv.sequence, submitter: a },
        )
        &&& after.admin == self.admin
        &&& after.paused == self.paused
        &&& self.rate_recorded(after, a, inv.timestamp, 1)
        &&& after.events == self.events + rate_alerts(a, self.quota(a@), inv.timestamp, 1) + seq![
            OracleEvent::ResultSubmitted { match_id, result },
        ]
    }

    /// `after` is `self` with the batch `es` of `submit_batch_results` in `inv` recorded.
    pub open spec fn batch_submitted(self, after: OracleModel, inv: Invocation, es: Seq<BatchResultEntry>) -> bool {
        let a = self.admin->0;
        &&& after.results == self.results.union_prefer_right(batch_results(es, inv.sequence, a))
        &&& after.admin == self.admin
        &&& after.paused == self.paused
        &&& self.rate_recorded(after, a, inv.timestamp, es.len() as u32)
        &&& after.events == self.events + rate_alerts(
            a,
            self.quota(a@),
            inv.timestamp,
            es.len() as u32,
        ) + batch_events(es) + seq![OracleEvent::BatchSubmitted { count: es.len() as u32 }]
    }

    /// Why an admin-only call in `inv` is refused, if it is.
    pub open spec fn admin_error(self, inv: Invocation) -> Option<OracleError> {
        match self.admin {
            Some(a) => if signed_by(inv, a@) {
                None
            } else {
                Some(OracleError::Unauthorized)
            },
            None => Some(OracleError::Unauthorized),
        }
    }
}

/// The oracle contract's storage: its admin, pause flag, recorded results,
/// per-oracle rate-limit data and the events published so far.
pub struct OracleContract {
    admin: Option<String>,
    paused: bool,
    results: HashMap<u64, ResultEntry>,
    limiter: RateLimiter,
    events: Vec<OracleEvent>,
}

impl View for OracleContract {
    type V = OracleModel;

    closed spec fn view(&self) -> OracleModel {
        OracleModel {
            admin: self.admin,
            paused: self.paused,
            results: self.results@,
            quotas: self.limiter@,
            events: self.events@,
        }
    }
}

impl OracleContract {
    /// Storage of a freshly deployed, uninitialized contract.
    pub fn new() -> (c: Self)
        ensures
            c@.admin is None,
            !c@.paused,
            c@.results == Map::<u64, ResultEntry>::empty(),
            c@.quotas == Seq::<OracleQuota>::empty(),
            c@.events == Seq::<OracleEvent>::empty(),
    {
        OracleContract {
            admin: None,
            paused: false,
            results: HashMap::new(),
            limiter: RateLimiter::new(),
            events: Vec::new(),
        }
    }

    /// Check that the stored admin authorized `inv`, returning that admin.
    fn require_admin(&self, inv: &Invocation) -> (r: Result<String, OracleError>)
        ensures
            match self@.admin_error(*inv) {
                Some(e) => r == Err::<String, OracleError>(e),
                None => r == Ok::<String, OracleError>(self@.admin->0),
            },
    {
        match &self.admin {
            Some(a) => {
                if inv.is_signed_by(a) {
                    Ok(a.clone())
                } else {
                    Err(OracleError::Unauthorized)
                }
            },
            None => Err(OracleError::Unauthorized),
        }
    }

    /// Initialize with a trusted admin (the off-chain oracle service). Only
    /// the deploying account, passed as `deployer`, may do so: it must have
    /// authorized the call.
    pub fn initialize(&mut self, inv: &Invocation, deployer: String, admin: String) -> (r: Result<(), OracleError>)
        ensures
            !signed_by(*inv, deployer@) ==> r == Err::<(), OracleError>(OracleError::Unauthorized)
                && *final(self) == *old(self),
            signed_by(*inv, deployer@) && old(self)@.admin is Some ==> r == Err::<(), OracleError>(
                OracleError::AlreadyInitialized,
            ) && *final(self) == *old(self),
            signed_by(*inv, deployer@) && old(self)@.admin is None ==> {
                &&& r is Ok
                &&& final(self)@.admin == Some(admin)
                &&& final(self)@.paused == old(self)@.paused
                &&& final(self)@.results == old(self)@.results
                &&& final(self)@.quotas == old(self)@.quotas
                &&& final(self)@.events == old(self)@.events.push(
                    OracleEvent::Initialized { admin },
                )
            },
    {
        if !inv.is_signed_by(&deployer) {
            return Err(OracleError::Unauthorized);
        }
        if self.admin.is_some() {
            return Err(OracleError::AlreadyInitialized);
        }
        let event_admin = admin.clone();
        self.admin = Some(admin);
        self.events.push(OracleEvent::Initialized { admin: event_admin });
        Ok(())
    }

    /// Whether the contract has been initialized.
    pub fn is_initialized(&self) -> (r: bool)
        ensures
            r == self@.admin is Some,
    {
        self.admin.is_some()
    }

    /// The stored admin address.
    pub fn get_admin(&self) -> (r: Result<String, OracleError>)
        ensures
            match self@.admin {
                Some(a) => r == Ok::<String, OracleError>(a),
                None => r == Err::<String, OracleError>(OracleError::Unauthorized),
            },
    {
        match &self.admin {
            Some(a) => Ok(a.clone()),
            None => Err(OracleError::Unauthorized),
        }
    }

    /// Whether a result has been recorded for `match_id`.
    pub fn has_result(&self, match_id: u64) -> (r: bool)
        ensures
            r == self@.results.contains_key(match_id),
    {
        self.results.contains_key(&match_id)
    }

    /// Admin-gated variant of [`has_result`](Self::has_result).
    pub fn has_result_admin(&self, inv: &Invocation, match_id: u64) -> (r: Result<bool, OracleError>)
        ensures
            match self@.admin_error(*inv) {
                Some(e) => r == Err::<bool, OracleError>(e),
                None => r == Ok::<bool, OracleError>(self@.results.contains_key(match_id)),
            },
    {
        let _admin = self.require_admin(inv)?;
        Ok(self.results.contains_key(&match_id))
    }

    /// The recorded result for `match_id`.
    pub fn get_result(&self, match_id: u64) -> (r: Result<ResultEntry, OracleError>)
        ensures
            self@.results.contains_key(match_id) ==> r == Ok::<ResultEntry, OracleError>(
                self@.results[match_id],
            ),
            !self@.results.contains_key(match_id) ==> r == Err::<ResultEntry, OracleError>(
                OracleError::ResultNotFound,
            ),
    {
        match self.results.get(&match_id) {
            Some(e) => Ok(e.clone()),
            None => Err(OracleError::ResultNotFound),
        }
    }

    /// Admin removes a previously recorded result.
    pub fn delete_result(&mut self, inv: &Invocation, match_id: u64) -> (r: Result<(), OracleError>)
        ensures
            ({
                let m = old(self)@;
                let err = if m.paused {
                    Some(OracleError::ContractPaused)
                } else if m.admin_error(*inv) is Some {
                    m.admin_error(*inv)
                } else if !m.results.contains_key(match_id) {
                    Some(OracleError::ResultNotFound)
                } else {
                    None
                };
                match err {
                    Some(e) => r == Err::<(), OracleError>(e) && *final(self) == *old(self),
                    None => {
                        &&& r is Ok
                        &&& final(self)@.results == m.results.remove(match_id)
                        &&& final(self)@.admin == m.admin
                        &&& final(self)@.paused == m.paused
                        &&& final(self)@.quotas == m.quotas
                        &&& final(self)@.events == m.events.push(
                            OracleEvent::ResultDeleted { match_id },
                        )
                    },
                }
            }),
    {
        if self.paused {
            return Err(OracleError::ContractPaused);
        }
        let _admin = self.require_admin(inv)?;
        if !self.results.contains_key(&match_id) {
            return Err(OracleError::ResultNotFound);
        }
        self.results.remove(&match_id);
        self.events.push(OracleEvent::ResultDeleted { match_id });
        Ok(())
    }

    /// Rotate the admin to a new address; requires the current admin's authorization.
    pub fn update_admin(&mut self, inv: &Invocation, new_admin: String) -> (r: Result<(), OracleError>)
        ensures
            match old(self)@.admin_error(*inv) {
                Some(e) => r == Err::<(), OracleError>(e) && *final(self) == *old(self),
                None => {
                    &&& r is Ok
                    &&& final(self)@.admin == Some(new_admin)
                    &&& final(self)@.paused == old(self)@.paused
                    &&& final(self)@.results == old(self)@.results
                    &&& final(self)@.quotas == old(self)@.quotas
                    &&& final(self)@.events == old(self)@.events.push(
                        OracleEvent::AdminRotated {
                            old_admin: old(self)@.admin->0,
                            new_admin,
                        },
                    )
                },
            },
    {
        let current = self.require_admin(inv)?;
        let event_new = new_admin.clone();
        self.admin = Some(new_admin);
        self.events.push(OracleEvent::AdminRotated { old_admin: current, new_admin: event_new });
        Ok(())
    }

    /// Set the pause flag to `paused` on behalf of the admin.
    fn set_paused(&mut self, inv: &Invocation, paused: bool) -> (r: Result<(), OracleError>)
        ensures
            match old(self)@.admin_error(*inv) {
                Some(e) => r == Err::<(), OracleError>(e) && *final(self) == *old(self),
                None => {
                    &&& r is Ok
                    &&& final(self)@.admin == old(self)@.admin
                    &&& final(self)@.paused == paused
                    &&& final(self)@.results == old(self)@.results
                    &&& final(self)@.quotas == old(self)@.quotas
                    &&& final(self)@.events == old(self)@.events.push(
                        if paused {
                            OracleEvent::Paused
                        } else {
                            OracleEvent::Unpaused
                        },
                    )
                },
            },
    {
        let _admin = self.require_admin(inv)?;
        self.paused = paused;
        if paused {
            self.events.push(OracleEvent::Paused);
        } else {
            self.events.push(OracleEvent::Unpaused);
        }
        Ok(())
    }

    /// Pause the oracle (admin only): blocks submissions and deletions.
    pub fn pause(&mut self, inv: &Invocation) -> (r: Result<(), OracleError>)
        ensures
            match old(self)@.admin_error(*inv) {
                Some(e) => r == Err::<(), OracleError>(e) && *final(self) == *old(self),
                None => {
                    &&& r is Ok
                    &&& final(self)@.admin == old(self)@.admin
                    &&& final(self)@.paused
                    &&& final(self)@.results == old(self)@.results
                    &&& final(self)@.quotas == old(self)@.quotas
                    &&& final(self)@.events == old(self)@.events.push(OracleEvent::Paused)
                },
            },
    {
        self.set_paused(inv, true)
    }

    /// Unpause the oracle (admin only).
    pub fn unpause(&mut self, inv: &Invocation) -> (r: Result<(), OracleError>)
        ensures
            match old(self)@.admin_error(*inv) {
                Some(e) => r == Err::<(), OracleError>(e) && *final(self) == *old(self),
                None => {
                    &&& r is Ok
                    &&& final(self)@.admin == old(self)@.admin
                    &&& !final(self)@.paused
                    &&& final(self)@.results == old(self)@.results
                    &&& final(self)@.quotas == old(self)@.quotas
                    &&& final(self)@.events == old(self)@.events.push(OracleEvent::Unpaused)
                },
            },
    {
        self.set_paused(inv, false)
    }

    /// Hand out the events published so far, leaving none behind.
    pub fn take_events(&mut self) -> (r: Vec<OracleEvent>)
        ensures
            r@ == old(self)@.events,
            final(self)@.events == Seq::<OracleEvent>::empty(),
            final(self)@.admin == old(self)@.admin,
            final(self)@.paused == old(self)@.paused,
            final(self)@.results == old(self)@.results,
            final(self)@.quotas == old(self)@.quotas,
    {
        let mut taken: Vec<OracleEvent> = Vec::new();
        std::mem::swap(&mut taken, &mut self.events);
        taken
    }
}


/// The outcome of a successful rate-limit check: the windows to store and
/// the usage they record.
struct RatePlan {
    hourly: RateWindow,
    daily: RateWindow,
    hourly_used: u32,
    daily_used: u32,
    config: RateLimitConfig,
    limits: Option<RateLimitConfig>,
}

impl OracleContract {
    /// The limits in force for `oracle`, falling back to the contract defaults.
    fn rate_limit_config(&self, oracle: &String) -> (c: RateLimitConfig)
        ensures
            c == config_of(self@.quota(oracle@)),
    {
        let (limits, _, _) = self.limiter.stored(oracle);
        match limits {
            Some(c) => c,
            None => RateLimitConfig { hourly_limit: DEFAULT_HOURLY_LIMIT, daily_limit: DEFAULT_DAILY_LIMIT },
        }
    }

    /// Check that `oracle`'s hourly and daily limits can absorb `count` more
    /// submissions at `now`, and compute the windows that record them.
    fn check_oracle_rate_limit(&self, oracle: &String, now: u64, count: u32) -> (r: Result<RatePlan, OracleError>)
        requires
            rate_fits(self@.quota(oracle@), now, count),
        ensures
            ({
                let q = self@.quota(oracle@);
                match r {
                    Ok(p) => {
                        &&& rate_admits(q, now, count)
                        &&& recorded_quota(*oracle, q, now, count) == (OracleQuota {
                            oracle: *oracle,
                            limits: p.limits,
                            hourly: Some(p.hourly),
                            daily: Some(p.daily),
                        })
                        &&& p.hourly_used == hourly_used(q, now) + count
                        &&& p.daily_used == daily_used(q, now) + count
                        &&& p.config == config_of(q)
                    },
                    Err(e) => !rate_admits(q, now, count) && e == OracleError::RateLimitExceeded,
                }
            }),
    {
        let ghost q = self@.quota(oracle@);
        let config = self.rate_limit_config(oracle);
        let (limits, stored_hourly, stored_daily) = self.limiter.stored(oracle);

        let mut hourly = Self::load_rate_window(stored_hourly, now, HOURLY_WINDOW_SECS);
        proof {
            lemma_product_fits(now, hourly, HOURLY_WINDOW_SECS);
        }
        let used_hourly = Self::estimated_window_count(now, &hourly, HOURLY_WINDOW_SECS);
        if used_hourly.saturating_add(count) > config.hourly_limit {
            return Err(OracleError::RateLimitExceeded);
        }

        let mut daily = Self::load_rate_window(stored_daily, now, DAILY_WINDOW_SECS);
        proof {
            lemma_product_fits(now, daily, DAILY_WINDOW_SECS);
        }
        let used_daily = Self::estimated_window_count(now, &daily, DAILY_WINDOW_SECS);
        if used_daily.saturating_add(count) > config.daily_limit {
            return Err(OracleError::RateLimitExceeded);
        }

        hourly.current_count = hourly.current_count + count;
        daily.current_count = daily.current_count + count;
        Ok(RatePlan {
            hourly,
            daily,
            hourly_used: used_hourly + count,
            daily_used: used_daily + count,
            config,
            limits,
        })
    }

    /// Publish an `oracle / alert` event when `used` reaches the alert
    /// threshold of a non-zero `limit`.
    fn maybe_alert(&mut self, oracle: &String, window: RateWindowKind, used: u32, limit: u32)
        ensures
            final(self)@.events == old(self)@.events + alert_for(*oracle, window, used as int, limit),
            final(self)@.admin == old(self)@.admin,
            final(self)@.paused == old(self)@.paused,
            final(self)@.results == old(self)@.results,
            final(self)@.quotas == old(self)@.quotas,
    {
        if limit == 0 {
            assert(alert_for(*oracle, window, used as int, limit) =~= seq![]);
            return;
        }
        if (used as u64) * 100 >= (limit as u64) * 80 {
            self.events.push(
                OracleEvent::RateAlert { oracle: oracle.clone(), window, used, limit },
            );
        } else {
            assert(alert_for(*oracle, window, used as int, limit) =~= seq![]);
        }
    }

    /// Store the windows of a successful check and raise any alerts.
    fn record_rate(&mut self, oracle: &String, plan: RatePlan)
        ensures
            final(self)@.events == old(self)@.events
                + alert_for(*oracle, RateWindowKind::Hourly, plan.hourly_used as int, plan.config.hourly_limit)
                + alert_for(*oracle, RateWindowKind::Daily, plan.daily_used as int, plan.config.daily_limit),
            forall|o: Seq<char>|
                #![trigger final(self)@.quota(o)]
                final(self)@.quota(o) == if o == oracle@ {
                    Some(OracleQuota {
                        oracle: *oracle,
                        limits: plan.limits,
                        hourly: Some(plan.hourly),
                        daily: Some(plan.daily),
                    })
                } else {
                    old(self)@.quota(o)
                },
            final(self)@.admin == old(self)@.admin,
            final(self)@.paused == old(self)@.paused,
            final(self)@.results == old(self)@.results,
    {
        self.limiter.put(
            OracleQuota {
                oracle: oracle.clone(),
                limits: plan.limits,
                hourly: Some(plan.hourly),
                daily: Some(plan.daily),
            },
        );
        self.maybe_alert(oracle, RateWindowKind::Hourly, plan.hourly_used, plan.config.hourly_limit);
        self.maybe_alert(oracle, RateWindowKind::Daily, plan.daily_used, plan.config.daily_limit);
    }

    /// Configure the hourly and daily submission limits of `oracle` (admin
    /// only); `0` for either falls back to the contract default.
    pub fn set_oracle_rate_limits(
        &mut self,
        inv: &Invocation,
        oracle: String,
        hourly_limit: u32,
        daily_limit: u32,
    ) -> (r: Result<(), OracleError>)
        ensures
            ({
                let m = old(self)@;
                let err = if m.admin_error(*inv) is Some {
                    m.admin_error(*inv)
                } else if hourly_limit != 0 && daily_limit != 0 && hourly_limit > daily_limit {
                    Some(OracleError::InvalidRateLimit)
                } else {
                    None
                };
                let config = requested_config(hourly_limit, daily_limit);
                let q = m.quota(oracle@);
                match err {
                    Some(e) => r == Err::<(), OracleError>(e) && *final(self) == *old(self),
                    None => {
                        &&& r is Ok
                        &&& forall|o: Seq<char>|
                            #![trigger final(self)@.quota(o)]
                            final(self)@.quota(o) == if o == oracle@ {
                                Some(OracleQuota {
                                    oracle,
                                    limits: Some(config),
                                    hourly: hourly_of(q),
                                    daily: daily_of(q),
                                })
                            } else {
                                m.quota(o)
                            }
                        &&& final(self)@.admin == m.admin
                        &&& final(self)@.paused == m.paused
                        &&& final(self)@.results == m.results
                        &&& final(self)@.events == m.events.push(
                            OracleEvent::RateLimitsSet {
                                oracle,
                                hourly_limit: config.hourly_limit,
                                daily_limit: config.daily_limit,
                            },
                        )
                    },
                }
            }),
    {
        let _admin = self.require_admin(inv)?;
        if hourly_limit != 0 && daily_limit != 0 && hourly_limit > daily_limit {
            return Err(OracleError::InvalidRateLimit);
        }
        let config = RateLimitConfig {
            hourly_limit: if hourly_limit == 0 {
                DEFAULT_HOURLY_LIMIT
            } else {
                hourly_limit
            },
            daily_limit: if daily_limit == 0 {
                DEFAULT_DAILY_LIMIT
            } else {
                daily_limit
            },
        };
        let (_, hourly, daily) = self.limiter.stored(&oracle);
        let event_oracle = oracle.clone();
        self.limiter.put(OracleQuota { oracle, limits: Some(config), hourly, daily });
        self.events.push(
            OracleEvent::RateLimitsSet {
                oracle: event_oracle,
                hourly_limit: config.hourly_limit,
                daily_limit: config.daily_limit,
            },
        );
        Ok(())
    }

    /// The hourly and daily limits in force for `oracle`.
    pub fn get_oracle_rate_limits(&self, oracle: &String) -> (c: RateLimitConfig)
        ensures
            c == config_of(self@.quota(oracle@)),
    {
        self.rate_limit_config(oracle)
    }

    /// `oracle`'s usage and remaining quota at time `now`.
    pub fn get_oracle_rate_limit_status(&self, now: u64, oracle: &String) -> (s: RateLimitStatus)
        requires
            usage_fits(self@.quota(oracle@), now),
        ensures
            ({
                let q = self@.quota(oracle@);
                let c = config_of(q);
                &&& s.hourly_used == hourly_used(q, now)
                &&& s.hourly_limit == c.hourly_limit
                &&& s.hourly_remaining == if c.hourly_limit >= hourly_used(q, now) {
                    c.hourly_limit - hourly_used(q, now)
                } else {
                    0
                }
                &&& s.daily_used == daily_used(q, now)
                &&& s.daily_limit == c.daily_limit
                &&& s.daily_remaining == if c.daily_limit >= daily_used(q, now) {
                    c.daily_limit - daily_used(q, now)
                } else {
                    0
                }
            }),
    {
        let config = self.rate_limit_config(oracle);
        let (_, stored_hourly, stored_daily) = self.limiter.stored(oracle);
        let hourly = Self::load_rate_window(stored_hourly, now, HOURLY_WINDOW_SECS);
        proof {
            lemma_product_fits(now, hourly, HOURLY_WINDOW_SECS);
        }
        let hourly_used = Self::estimated_window_count(now, &hourly, HOURLY_WINDOW_SECS);
        let daily = Self::load_rate_window(stored_daily, now, DAILY_WINDOW_SECS);
        proof {
            lemma_product_fits(now, daily, DAILY_WINDOW_SECS);
        }
        let daily_used = Self::estimated_window_count(now, &daily, DAILY_WINDOW_SECS);
        RateLimitStatus {
            hourly_used,
            hourly_limit: config.hourly_limit,
            hourly_remaining: config.hourly_limit.saturating_sub(hourly_used),
            daily_used,
            daily_limit: config.daily_limit,
            daily_remaining: config.daily_limit.saturating_sub(daily_used),
        }
    }
}

impl OracleContract {
    /// Admin records a verified match result.
    pub fn submit_result(
        &mut self,
        inv: &Invocation,
        match_id: u64,
        game_id: String,
        platform: Platform,
        result: Winner,
    ) -> (r: Result<(), OracleError>)
        requires
            old(self)@.submission_fits(*inv, 1),
        ensures
            ({
                let m = old(self)@;
                let a = m.admin->0;
                match m.submit_error(*inv, match_id, game_id@) {
                    Some(e) => r == Err::<(), OracleError>(e) && *final(self) == *old(self),
                    None => r is Ok && m.submitted(final(self)@, *inv, match_id, game_id, platform, result),
                }
            }),
    {
        if self.paused {
            return Err(OracleError::ContractPaused);
        }
        let admin = self.require_admin(inv)?;
        let plan = self.check_oracle_rate_limit(&admin, inv.timestamp, 1)?;
        if self.results.contains_key(&match_id) {
            return Err(OracleError::AlreadySubmitted);
        }
        if game_id.as_str().is_empty() {
            return Err(OracleError::InvalidGameId);
        }
        let ghost m = old(self)@;
        let ghost before = self@.events;
        self.record_rate(&admin, plan);
        let ghost alerts = rate_alerts(admin, m.quota(admin@), inv.timestamp, 1);
        assert(self@.events =~= before + alerts);
        let ghost recorded = self@;
        let entry = ResultEntry {
            game_id,
            platform,
            result,
            submitted_ledger: inv.sequence,
            submitter: admin,
        };
        self.results.insert(match_id, entry);
        self.events.push(OracleEvent::ResultSubmitted { match_id, result });
        assert(self@.events =~= before + alerts + seq![OracleEvent::ResultSubmitted { match_id, result }]);
        proof {
            lemma_rate_recorded_same_quotas(m, recorded, self@, admin, inv.timestamp, 1);
        }
        Ok(())
    }

    /// Check every entry of a batch against the recorded results, returning
    /// the first refusal.
    fn validate_batch(&self, entries: &Vec<BatchResultEntry>) -> (r: Result<(), OracleError>)
        ensures
            match first_entry_error(entries@, self@.results, 0) {
                Some(e) => r == Err::<(), OracleError>(e),
                None => r is Ok,
            },
    {
        let len = entries.len();
        let ghost es = entries@;
        let ghost results = self@.results;
        let mut i: usize = 0;
        while i < len
            invariant
                len == es.len(),
                es == entries@,
                results == self@.results,
                i <= len,
                first_entry_error(es, results, 0) == first_entry_error(es, results, i as int),
            decreases len - i,
        {
            let entry = &entries[i];
            if entry.game_id.as_str().is_empty() {
                return Err(OracleError::InvalidGameId);
            }
            let mut j: usize = i + 1;
            while j < len
                invariant
                    len == es.len(),
                    es == entries@,
                    i < len,
                    i + 1 <= j <= len,
                    *entry == es[i as int],
                    results == self@.results,
                    es[i as int].game_id@.len() != 0,
                    first_entry_error(es, results, 0) == first_entry_error(es, results, i as int),
                    forall|k: int| i < k < j ==> es[k].match_id != es[i as int].match_id,
                decreases len - j,
            {
                if entries[j].match_id == entry.match_id {
                    assert(es[j as int].match_id == es[i as int].match_id);
                    assert(entry_error(es, results, i as int) == Some(
                        OracleError::BatchDuplicateEntry,
                    ));
                    return Err(OracleError::BatchDuplicateEntry);
                }
                j = j + 1;
            }
            assert(!exists|k: int| i < k < es.len() && #[trigger] es[k].match_id == es[i as int].match_id);
            if self.results.contains_key(&entry.match_id) {
                return Err(OracleError::AlreadySubmitted);
            }
            assert(entry_error(es, results, i as int) is None);
            i = i + 1;
        }
        Ok(())
    }

    /// Submit results for several matches atomically: every entry is checked
    /// before anything is recorded.
    pub fn submit_batch_results(&mut self, inv: &Invocation, entries: Vec<BatchResultEntry>) -> (r:
        Result<(), OracleError>)
        requires
            entries@.len() <= MAX_BATCH_SIZE ==> old(self)@.submission_fits(
                *inv,
                entries@.len() as u32,
            ),
        ensures
            ({
                let m = old(self)@;
                let a = m.admin->0;
                let es = entries@;
                match m.batch_error(*inv, es) {
                    Some(e) => r == Err::<(), OracleError>(e) && *final(self) == *old(self),
                    None => r is Ok && m.batch_submitted(final(self)@, *inv, es),
                }
            }),
    {
        if self.paused {
            return Err(OracleError::ContractPaused);
        }
        let admin = self.require_admin(inv)?;
        let len = entries.len();
        if len > MAX_BATCH_SIZE as usize {
            return Err(OracleError::BatchTooLarge);
        }
        let count = len as u32;
        let plan = self.check_oracle_rate_limit(&admin, inv.timestamp, count)?;
        self.validate_batch(&entries)?;

        let ghost m = self@;
        let ghost es = entries@;
        let ghost before = self@.events;
        self.record_rate(&admin, plan);
        let ghost alerts = rate_alerts(admin, m.quota(admin@), inv.timestamp, count);
        assert(self@.events =~= before + alerts);
        let ghost base_events = self@.events;
        let ghost recorded = self@;
        let ledger = inv.sequence;
        let mut k: usize = 0;
        while k < len
            invariant
                len == es.len(),
                es == entries@,
                k <= len,
                self@.results == m.results.union_prefer_right(
                    batch_results(es.take(k as int), ledger, admin),
                ),
                self@.events == base_events + batch_events(es.take(k as int)),
                self@.admin == recorded.admin,
                self@.paused == recorded.paused,
                self@.quotas == recorded.quotas,
            decreases len - k,
        {
            let entry = &entries[k];
            let e = ResultEntry {
                game_id: entry.game_id.clone(),
                platform: entry.platform,
                result: entry.result,
                submitted_ledger: ledger,
                submitter: admin.clone(),
            };
            proof {
                let t = es.take(k as int + 1);
                assert(t.drop_last() =~= es.take(k as int));
                assert(t.last() == es[k as int]);
                assert(e == entry_result(es[k as int], ledger, admin));
            }
            self.results.insert(entry.match_id, e);
            self.events.push(OracleEvent::ResultSubmitted { match_id: entry.match_id, result: entry.result });
            proof {
                let t = es.take(k as int + 1);
                assert(self@.results =~= m.results.union_prefer_right(batch_results(t, ledger, admin)));
                assert(batch_events(t) =~= batch_events(es.take(k as int)).push(
                    OracleEvent::ResultSubmitted { match_id: es[k as int].match_id, result: es[k as int].result },
                ));
            }
            k = k + 1;
        }
        proof {
            assert(es.take(len as int) =~= es);
        }
        self.events.push(OracleEvent::BatchSubmitted { count });
        proof {
            lemma_rate_recorded_same_quotas(m, recorded, self@, admin, inv.timestamp, count);
        }
        assert(self@.events =~= before + alerts + batch_events(es) + seq![
            OracleEvent::BatchSubmitted { count },
        ]);
        Ok(())
    }
}

impl OracleContract {
    /// Storage holding `admin` and `paused`, with no results, rate-limit
    /// records or events yet; the rest is loaded entry by entry.
    pub fn restore(admin: Option<String>, paused: bool) -> (c: Self)
        ensures
            c@.admin == admin,
            c@.paused == paused,
            c@.results == Map::<u64, ResultEntry>::empty(),
            c@.quotas == Seq::<OracleQuota>::empty(),
            c@.events == Seq::<OracleEvent>::empty(),
    {
        OracleContract {
            admin,
            paused,
            results: HashMap::new(),
            limiter: RateLimiter::new(),
            events: Vec::new(),
        }
    }

    /// Load the stored result of `match_id`.
    pub fn load_result(&mut self, match_id: u64, entry: ResultEntry)
        ensures
            final(self)@.results == old(self)@.results.insert(match_id, entry),
            final(self)@.admin == old(self)@.admin,
            final(self)@.paused == old(self)@.paused,
            final(self)@.quotas == old(self)@.quotas,
            final(self)@.events == old(self)@.events,
    {
        self.results.insert(match_id, entry);
    }

    /// Load the stored rate-limit record of an oracle.
    pub fn load_quota(&mut self, quota: OracleQuota)
        ensures
            forall|o: Seq<char>|
                #![trigger final(self)@.quota(o)]
                final(self)@.quota(o) == if o == quota.oracle@ {
                    Some(quota)
                } else {
                    old(self)@.quota(o)
                },
            final(self)@.results == old(self)@.results,
            final(self)@.admin == old(self)@.admin,
            final(self)@.paused == old(self)@.paused,
            final(self)@.events == old(self)@.events,
    {
        self.limiter.put(quota);
    }

    /// Whether the contract is paused.
    pub fn is_paused(&self) -> (r: bool)
        ensures
            r == self@.paused,
    {
        self.paused
    }

    /// The stored limits and windows of `oracle`.
    pub fn stored_quota(&self, oracle: &String) -> (r: (
        Option<RateLimitConfig>,
        Option<RateWindow>,
        Option<RateWindow>,
    ))
        ensures
            r.0 == crate::rate_limit::limits_of(self@.quota(oracle@)),
            r.1 == hourly_of(self@.quota(oracle@)),
            r.2 == daily_of(self@.quota(oracle@)),
    {
        self.limiter.stored(oracle)
    }

    /// Whether a call in `inv` recording `count` submissions stays within
    /// the machine integers (see [`OracleModel::submission_fits`]).
    pub fn submission_fits(&self, inv: &Invocation, count: u32) -> (r: bool)
        ensures
            r == self@.submission_fits(*inv, count),
    {
        if self.paused {
            return true;
        }
        let admin = match self.require_admin(inv) {
            Ok(a) => a,
            Err(_) => return true,
        };
        self.rate_fits(&admin, inv.timestamp, count)
    }

    /// Whether checking and recording `count` submissions of `oracle` at
    /// `now` stays within the machine integers.
    fn rate_fits(&self, oracle: &String, now: u64, count: u32) -> (r: bool)
        ensures
            r == rate_fits(self@.quota(oracle@), now, count),
    {
        let ghost q = self@.quota(oracle@);
        let config = self.rate_limit_config(oracle);
        let (_, stored_hourly, stored_daily) = self.limiter.stored(oracle);
        let hourly = Self::load_rate_window(stored_hourly, now, HOURLY_WINDOW_SECS);
        let hourly_used = Self::wide_usage(now, &hourly, HOURLY_WINDOW_SECS);
        if hourly_used > u32::MAX as u64 {
            return false;
        }
        let admitted_hourly = hourly_used + count as u64 <= config.hourly_limit as u64 || (
        hourly_used + count as u64 > u32::MAX as u64 && config.hourly_limit == u32::MAX);
        if !admitted_hourly {
            return true;
        }
        let daily = Self::load_rate_window(stored_daily, now, DAILY_WINDOW_SECS);
        let daily_used = Self::wide_usage(now, &daily, DAILY_WINDOW_SECS);
        if daily_used > u32::MAX as u64 {
            return false;
        }
        let admitted_daily = daily_used + count as u64 <= config.daily_limit as u64 || (daily_used
            + count as u64 > u32::MAX as u64 && config.daily_limit == u32::MAX);
        !admitted_daily || (hourly_used + count as u64 <= u32::MAX as u64 && daily_used + count as u64
            <= u32::MAX as u64)
    }

    /// The sliding-window estimate, computed without narrowing to `u32`.
    fn wide_usage(now: u64, window: &RateWindow, window_secs: u64) -> (used: u64)
        requires
            0 < window_secs <= DAILY_WINDOW_SECS,
        ensures
            used == crate::rate_limit::estimated_usage(now, *window, window_secs),
    {
        proof {
            lemma_product_fits(now, *window, window_secs);
        }
        let since = now.saturating_sub(window.window_start);
        let elapsed_in_current = if since < window_secs {
            since
        } else {
            window_secs
        };
        let remaining = window_secs - elapsed_in_current;
        let weighted_previous = (window.previous_count as u64 * remaining) / window_secs;
        window.current_count as u64 + weighted_previous
    }

    /// Whether the usage estimates of `oracle` at `now` are machine integers
    /// (the condition of [`get_oracle_rate_limit_status`](Self::get_oracle_rate_limit_status)).
    pub fn usage_fits(&self, now: u64, oracle: &String) -> (r: bool)
        ensures
            r == usage_fits(self@.quota(oracle@), now),
    {
        let (_, stored_hourly, stored_daily) = self.limiter.stored(oracle);
        let hourly = Self::load_rate_window(stored_hourly, now, HOURLY_WINDOW_SECS);
        let daily = Self::load_rate_window(stored_daily, now, DAILY_WINDOW_SECS);
        Self::wide_usage(now, &hourly, HOURLY_WINDOW_SECS) <= u32::MAX as u64 && Self::wide_usage(
            now,
            &daily,
            DAILY_WINDOW_SECS,
        ) <= u32::MAX as u64
    }
}

} // verus!
