//! Configuration values, their defaults and their validation.

use vstd::prelude::*;
use vstd::string::*;

use crate::error::ConfigError;
use crate::text::opt_view;
use crate::watcher::{compile_pattern, pattern_compiles, string_views};

verus! {

/// Main configuration.
#[derive(Debug, Clone)]
pub struct Config {
    /// Directories to watch for file changes
    pub directories: Vec<String>,
    /// Patterns to ignore when watching (regex patterns)
    pub ignore_patterns: Vec<String>,
    /// Notification settings
    pub notifications: NotificationConfig,
    /// Database settings
    pub database: DatabaseConfig,
    /// AI integration settings
    pub ai: AiConfig,
}

/// Configuration for notifications and nudges.
#[derive(Debug, Clone)]
pub struct NotificationConfig {
    /// Hour of the day (0-23) to send daily digest
    pub daily_digest_hour: u8,
    /// Maximum number of nudges to send per day (max 100)
    pub max_nudges_per_day: u32,
    /// Whether to enable context switch nudges
    pub enable_context_switch_nudges: bool,
}

/// Configuration for the store.
#[derive(Debug, Clone)]
pub struct DatabaseConfig {
    /// Path to the database file
    pub path: String,
    /// Maximum number of snapshots to retain (max 1,000,000)
    pub max_snapshots: u32,
}

/// Configuration for AI integration.
#[derive(Debug, Clone)]
pub struct AiConfig {
    /// Whether AI features are enabled
    pub enabled: bool,
    /// API endpoint for AI service (if using external API)
    pub api_endpoint: Option<String>,
    /// API key: taken from the environment, never from the config file
    pub api_key: Option<String>,
}

pub fn default_digest_hour() -> (r: u8)
    ensures
        r == 20,
{
    20
}

pub fn default_max_nudges() -> (r: u32)
    ensures
        r == 2,
{
    2
}

pub fn default_true() -> (r: bool)
    ensures
        r,
{
    true
}

pub fn default_max_snapshots() -> (r: u32)
    ensures
        r == 1000,
{
    1000
}

impl Default for NotificationConfig {
    fn default() -> (r: NotificationConfig)
        ensures
            r.daily_digest_hour == 20,
            r.max_nudges_per_day == 2,
            r.enable_context_switch_nudges,
    {
        NotificationConfig {
            daily_digest_hour: default_digest_hour(),
            max_nudges_per_day: default_max_nudges(),
            enable_context_switch_nudges: default_true(),
        }
    }
}

/// `base` followed by the relative component `name`, with one '/' between.
pub open spec fn joined_path(base: Seq<char>, name: Seq<char>) -> Seq<char> {
    if base.len() == 0 || base.last() == '/' {
        base + name
    } else {
        base + "/"@ + name
    }
}

/// Appends the relative component `name` to the path `base`.
pub fn join_path(base: &str, name: &str) -> (r: String)
    ensures
        r@ == joined_path(base@, name@),
{
    let n = base.unicode_len();
    if n == 0 || base.get_char(n - 1) == '/' {
        String::from_str(base).concat(name)
    } else {
        String::from_str(base).concat("/").concat(name)
    }
}

/// Relies on dirs::data_local_dir: the user's local data directory, when the
/// platform and environment give one.
#[verifier::external_body]
fn data_local_dir() -> (r: Option<String>) {
    dirs::data_local_dir().map(|p| p.to_string_lossy().into_owned())
}

/// The default store path: `efficiency_cockpit/data.db` under the local data
/// directory, or under the current directory when there is none.
pub fn default_db_path() -> (r: String)
    ensures
        exists|base: Seq<char>| r@ == joined_path(joined_path(base, "efficiency_cockpit"@), "data.db"@),
{
    let base = match data_local_dir() {
        Some(d) => d,
        None => String::from_str("."),
    };
    let dir = join_path(base.as_str(), "efficiency_cockpit");
    let r = join_path(dir.as_str(), "data.db");
    assert(r@ == joined_path(joined_path(base@, "efficiency_cockpit"@), "data.db"@));
    r
}

impl Default for DatabaseConfig {
    fn default() -> (r: DatabaseConfig)
        ensures
            r.max_snapshots == 1000,
    {
        DatabaseConfig { path: default_db_path(), max_snapshots: default_max_snapshots() }
    }
}

impl Default for AiConfig {
    fn default() -> (r: AiConfig)
        ensures
            !r.enabled,
            r.api_endpoint is None,
            r.api_key is None,
    {
        AiConfig { enabled: false, api_endpoint: None, api_key: None }
    }
}

impl AiConfig {
    /// This configuration with the given API key.
    pub fn with_api_key(self, api_key: Option<String>) -> (r: AiConfig)
        ensures
            r.enabled == self.enabled,
            opt_view(r.api_endpoint) == opt_view(self.api_endpoint),
            opt_view(r.api_key) == opt_view(api_key),
    {
        AiConfig { api_key, ..self }
    }
}

/// Whether every pattern of `ps` compiles.
pub open spec fn all_compile(ps: Seq<Seq<char>>) -> bool {
    forall|i: int| 0 <= i < ps.len() ==> pattern_compiles(#[trigger] ps[i])
}

/// Whether a configuration passes every check, given which of its
/// directories exist.
pub open spec fn config_valid(c: Config, exists: Seq<bool>) -> bool {
    &&& c.directories@.len() > 0
    &&& forall|i: int| 0 <= i < exists.len() ==> #[trigger] exists[i]
    &&& all_compile(string_views(c.ignore_patterns@))
    &&& c.notifications.daily_digest_hour <= 23
    &&& c.notifications.max_nudges_per_day <= 100
    &&& c.database.max_snapshots <= 1_000_000
}

/// `r` reports an invalid value of the setting `name`.
pub open spec fn invalid_setting(r: Result<(), ConfigError>, name: Seq<char>) -> bool {
    match r {
        Err(ConfigError::InvalidValue { field, .. }) => field@ == name,
        _ => false,
    }
}

/// `r` reports an ignore pattern that does not compile.
pub open spec fn invalid_pattern(r: Result<(), ConfigError>) -> bool {
    match r {
        Err(ConfigError::InvalidPattern { pattern, .. }) => !pattern_compiles(pattern@),
        _ => false,
    }
}

/// The error value for an invalid setting.
fn invalid_value(field: &str, message: &str) -> (r: ConfigError)
    ensures
        r matches ConfigError::InvalidValue { field: f, message: m } && f@ == field@ && m@ == message@,
{
    ConfigError::InvalidValue { field: String::from_str(field), message: String::from_str(message) }
}

impl Config {
    /// A configuration for tests and first runs: the current directory,
    /// the usual ignore patterns and default settings.
    pub fn default_for_testing() -> (r: Config)
        ensures
            string_views(r.directories@) == seq!["."@],
            string_views(r.ignore_patterns@) == seq!["\\.git"@, "target"@, "node_modules"@],
            r.notifications.daily_digest_hour == 20,
            r.notifications.max_nudges_per_day == 2,
            r.notifications.enable_context_switch_nudges,
            r.database.max_snapshots == 1000,
            !r.ai.enabled,
            r.ai.api_endpoint is None,
            r.ai.api_key is None,
    {
        let mut directories: Vec<String> = Vec::new();
        directories.push(String::from_str("."));
        let mut ignore_patterns: Vec<String> = Vec::new();
        ignore_patterns.push(String::from_str("\\.git"));
        ignore_patterns.push(String::from_str("target"));
        ignore_patterns.push(String::from_str("node_modules"));
        assert(string_views(directories@) =~= seq!["."@]);
        assert(string_views(ignore_patterns@) =~= seq!["\\.git"@, "target"@, "node_modules"@]);
        Config {
            directories,
            ignore_patterns,
            notifications: NotificationConfig::default(),
            database: DatabaseConfig::default(),
            ai: AiConfig::default(),
        }
    }

    /// Checks the configuration; `directory_exists[i]` tells whether
    /// `directories[i]` exists. The checks run in order: some directory is
    /// configured, each exists, each ignore pattern compiles, the digest hour
    /// is at most 23, at most 100 nudges a day, at most 1,000,000 snapshots.
    /// The first that fails gives the error.
    pub fn validate(&self, directory_exists: &Vec<bool>) -> (r: Result<(), ConfigError>)
        requires
            directory_exists@.len() == self.directories@.len(),
        ensures
            r is Ok <==> config_valid(*self, directory_exists@),
            self.directories@.len() == 0 ==> invalid_setting(r, "directories"@),
            self.directories@.len() > 0 && (exists|i: int|
                0 <= i < directory_exists@.len() && !#[trigger] directory_exists@[i]) ==> invalid_setting(
                r,
                "directories"@,
            ),
            self.directories@.len() > 0 && (forall|i: int|
                0 <= i < directory_exists@.len() ==> #[trigger] directory_exists@[i]) && !all_compile(
                string_views(self.ignore_patterns@),
            ) ==> invalid_pattern(r),
            self.directories@.len() > 0 && (forall|i: int|
                0 <= i < directory_exists@.len() ==> #[trigger] directory_exists@[i]) && all_compile(
                string_views(self.ignore_patterns@),
            ) && self.notifications.daily_digest_hour > 23 ==> invalid_setting(r, "daily_digest_hour"@),
            self.directories@.len() > 0 && (forall|i: int|
                0 <= i < directory_exists@.len() ==> #[trigger] directory_exists@[i]) && all_compile(
                string_views(self.ignore_patterns@),
            ) && self.notifications.daily_digest_hour <= 23 && self.notifications.max_nudges_per_day > 100
                ==> invalid_setting(r, "max_nudges_per_day"@),
            self.directories@.len() > 0 && (forall|i: int|
                0 <= i < directory_exists@.len() ==> #[trigger] directory_exists@[i]) && all_compile(
                string_views(self.ignore_patterns@),
            ) && self.notifications.daily_digest_hour <= 23 && self.notifications.max_nudges_per_day <= 100
                && self.database.max_snapshots > 1_000_000 ==> invalid_setting(r, "max_snapshots"@),
    {
        if self.directories.len() == 0 {
            return Err(invalid_value("directories", "At least one directory must be configured"));
        }
        let n = self.directories.len();
        let mut i: usize = 0;
        while i < n
            invariant
                n == self.directories.len(),
                n == directory_exists@.len(),
                n > 0,
                i <= n,
                forall|j: int| 0 <= j < i ==> #[trigger] directory_exists@[j],
            decreases n - i,
        {
            if !directory_exists[i] {
                assert(!directory_exists@[i as int]);
                let message = String::from_str("Configured directory does not exist: ").concat(
                    self.directories[i].as_str(),
                ).concat(". Create it or remove from config.");
                return Err(invalid_value("directories", message.as_str()));
            }
            i = i + 1;
        }
        let m = self.ignore_patterns.len();
        let mut k: usize = 0;
        while k < m
            invariant
                m == self.ignore_patterns.len(),
                n == self.directories.len(),
                n == directory_exists@.len(),
                n > 0,
                forall|j: int| 0 <= j < n ==> #[trigger] directory_exists@[j],
                k <= m,
                forall|j: int| 0 <= j < k ==> pattern_compiles(#[trigger] string_views(self.ignore_patterns@)[j]),
            decreases m - k,
        {
            assert(string_views(self.ignore_patterns@)[k as int] == self.ignore_patterns@[k as int]@);
            match compile_pattern(self.ignore_patterns[k].as_str()) {
                Ok(_) => {},
                Err(message) => {
                    assert(!pattern_compiles(string_views(self.ignore_patterns@)[k as int]));
                    return Err(
                        ConfigError::InvalidPattern { pattern: self.ignore_patterns[k].clone(), message },
                    );
                },
            }
            k = k + 1;
        }
        if self.notifications.daily_digest_hour > 23 {
            return Err(invalid_value("daily_digest_hour", "daily_digest_hour must be between 0 and 23"));
        }
        if self.notifications.max_nudges_per_day > 100 {
            return Err(invalid_value("max_nudges_per_day", "max_nudges_per_day must not exceed 100"));
        }
        if self.database.max_snapshots > 1_000_000 {
            return Err(invalid_value("max_snapshots", "max_snapshots must not exceed 1,000,000"));
        }
        Ok(())
    }
}

} // verus!
