use vstd::prelude::*;

use crate::rpc::opt_view;
use crate::text::{chars_of, is_alnum, parse_unsigned, parsed_unsigned};

verus! {

/// Shortest accepted contract address.
pub const MIN_CONTRACT_ADDRESS_LEN: usize = 55;

/// Longest accepted contract address (a full Stellar strkey).
pub const MAX_CONTRACT_ADDRESS_LEN: usize = 56;

/// Smallest accepted polling interval, in seconds.
pub const MIN_POLL_INTERVAL_SECS: u64 = 1;

/// Largest accepted polling interval, in seconds.
pub const MAX_POLL_INTERVAL_SECS: u64 = 60;

/// Settings of the event indexer.
#[derive(Debug)]
pub struct Config {
    pub rpc_url: String,
    pub contract_escrow: String,
    pub db_path: String,
    pub bind_addr: String,
    pub bind_port: u16,
    pub cache_size: usize,
    pub poll_interval_secs: u64,
    pub log_level: String,
}

/// The raw setting values, each as found in the environment (if set):
/// `STELLAR_RPC_URL`, `CONTRACT_ESCROW`, `EVENT_INDEXER_DB_PATH`,
/// `EVENT_INDEXER_BIND_ADDR`, `EVENT_INDEXER_PORT`,
/// `EVENT_INDEXER_CACHE_SIZE`, `EVENT_INDEXER_POLL_INTERVAL` and
/// `EVENT_INDEXER_LOG_LEVEL`.
#[derive(Debug)]
pub struct Settings {
    pub rpc_url: Option<String>,
    pub contract_escrow: Option<String>,
    pub db_path: Option<String>,
    pub bind_addr: Option<String>,
    pub port: Option<String>,
    pub cache_size: Option<String>,
    pub poll_interval: Option<String>,
    pub log_level: Option<String>,
}

/// Why the settings are refused.
#[derive(Clone, Copy, Debug, PartialEq, Eq, Structural)]
pub enum ConfigError {
    /// `CONTRACT_ESCROW` is not set.
    MissingContractEscrow,
    /// `CONTRACT_ESCROW` is not 55 or 56 ASCII letters and digits.
    InvalidContractEscrow,
    /// The port is not a number that fits a `u16`.
    InvalidPort,
    /// The cache size is not a number that fits a `usize`.
    InvalidCacheSize,
    /// The polling interval is not a number that fits a `u64`.
    InvalidPollInterval,
    /// The polling interval is outside 1..=60 seconds.
    PollIntervalOutOfRange,
}

/// `s` is a well-formed contract address: 55 or 56 ASCII letters and digits.
pub open spec fn valid_contract_address(s: Seq<char>) -> bool {
    MIN_CONTRACT_ADDRESS_LEN <= s.len() <= MAX_CONTRACT_ADDRESS_LEN && forall|i: int| 0 <= i < s.len() ==> is_alnum(#[trigger] s[i])
}

/// The text of a setting, or its default.
pub open spec fn or_default(o: Option<String>, default: Seq<char>) -> Seq<char> {
    match opt_view(o) {
        Some(s) => s,
        None => default,
    }
}

/// Why `s` is refused, if it is, checked in this order.
pub open spec fn settings_error(s: Settings) -> Option<ConfigError> {
    let port = parsed_unsigned(or_default(s.port, "8080"@), u16::MAX as int);
    let cache = parsed_unsigned(or_default(s.cache_size, "10000"@), usize::MAX as int);
    let poll = parsed_unsigned(or_default(s.poll_interval, "5"@), u64::MAX as int);
    if s.contract_escrow is None {
        Some(ConfigError::MissingContractEscrow)
    } else if !valid_contract_address(s.contract_escrow->0@) {
        Some(ConfigError::InvalidContractEscrow)
    } else if port is None {
        Some(ConfigError::InvalidPort)
    } else if cache is None {
        Some(ConfigError::InvalidCacheSize)
    } else if poll is None {
        Some(ConfigError::InvalidPollInterval)
    } else if poll->0 < MIN_POLL_INTERVAL_SECS || poll->0 > MAX_POLL_INTERVAL_SECS {
        Some(ConfigError::PollIntervalOutOfRange)
    } else {
        None
    }
}

/// `c` is the configuration that the accepted settings `s` describe.
pub open spec fn config_of_settings(s: Settings, c: Config) -> bool {
    &&& c.rpc_url@ == or_default(s.rpc_url, "https://soroban-testnet.stellar.org"@)
    &&& c.contract_escrow == s.contract_escrow->0
    &&& c.db_path@ == or_default(s.db_path, "./events.db"@)
    &&& c.bind_addr@ == or_default(s.bind_addr, "127.0.0.1"@)
    &&& Some(c.bind_port as int) == parsed_unsigned(or_default(s.port, "8080"@), u16::MAX as int)
    &&& Some(c.cache_size as int) == parsed_unsigned(
        or_default(s.cache_size, "10000"@),
        usize::MAX as int,
    )
    &&& Some(c.poll_interval_secs as int) == parsed_unsigned(
        or_default(s.poll_interval, "5"@),
        u64::MAX as int,
    )
    &&& c.log_level@ == or_default(s.log_level, "info"@)
}

/// Whether `s` is 55 or 56 ASCII letters and digits.
fn is_valid_contract_address(s: &String) -> (r: bool)
    ensures
        r == valid_contract_address(s@),
{
    let cs = chars_of(s.as_str());
    if cs.len() < MIN_CONTRACT_ADDRESS_LEN || cs.len() > MAX_CONTRACT_ADDRESS_LEN {
        return false;
    }
    let n = cs.len();
    let mut i: usize = 0;
    while i < n
        invariant
            cs@ == s@,
            n == cs@.len(),
            i <= n,
            forall|j: int| 0 <= j < i ==> is_alnum(#[trigger] s@[j]),
        decreases n - i,
    {
        let c = cs[i];
        if !(('0' <= c && c <= '9') || ('a' <= c && c <= 'z') || ('A' <= c && c <= 'Z')) {
            return false;
        }
        i = i + 1;
    }
    true
}

/// The text of a setting, or `default` when it is not set.
fn setting_or(o: Option<String>, default: &str) -> (r: String)
    ensures
        r@ == or_default(o, default@),
{
    match o {
        Some(s) => s,
        None => String::from_str(default),
    }
}

impl Config {
    /// Build the configuration from raw settings: defaults for what is not
    /// set, a contract address of 55 or 56 ASCII letters and digits, numeric port,
    /// cache size and polling interval, and a polling interval of 1 to 60
    /// seconds.
    pub fn from_settings(s: Settings) -> (r: Result<Config, ConfigError>)
        ensures
            match settings_error(s) {
                Some(e) => r == Err::<Config, ConfigError>(e),
                None => r matches Ok(c) && config_of_settings(s, c),
            },
    {
        let ghost settings = s;
        let rpc_url = setting_or(s.rpc_url, "https://soroban-testnet.stellar.org");
        let contract_escrow = match s.contract_escrow {
            Some(c) => c,
            None => return Err(ConfigError::MissingContractEscrow),
        };
        if !is_valid_contract_address(&contract_escrow) {
            return Err(ConfigError::InvalidContractEscrow);
        }
        let db_path = setting_or(s.db_path, "./events.db");
        let bind_addr = setting_or(s.bind_addr, "127.0.0.1");
        let port_text = setting_or(s.port, "8080");
        let bind_port = match parse_unsigned(port_text.as_str(), u16::MAX as u64) {
            Some(p) => {
                p as u16
            },
            None => return Err(ConfigError::InvalidPort),
        };
        let cache_text = setting_or(s.cache_size, "10000");
        let cache_size = match parse_unsigned(cache_text.as_str(), usize::MAX as u64) {
            Some(c) => c as usize,
            None => return Err(ConfigError::InvalidCacheSize),
        };
        let poll_text = setting_or(s.poll_interval, "5");
        let poll_interval_secs = match parse_unsigned(poll_text.as_str(), u64::MAX) {
            Some(p) => p,
            None => return Err(ConfigError::InvalidPollInterval),
        };
        if poll_interval_secs < MIN_POLL_INTERVAL_SECS || poll_interval_secs > MAX_POLL_INTERVAL_SECS {
            return Err(ConfigError::PollIntervalOutOfRange);
        }
        let log_level = setting_or(s.log_level, "info");
        Ok(
            Config {
                rpc_url,
                contract_escrow,
                db_path,
                bind_addr,
                bind_port,
                cache_size,
                poll_interval_secs,
                log_level,
            },
        )
    }
}

} // verus!
