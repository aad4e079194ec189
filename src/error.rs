//! Error types of the library.

use vstd::prelude::*;
use vstd::string::*;

verus! {

/// Configuration errors.
#[derive(Debug)]
pub enum ConfigError {
    /// Config file not found
    NotFound { path: String },
    /// Failed to parse config file
    ParseError { message: String },
    /// Invalid configuration value
    InvalidValue { field: String, message: String },
    /// Invalid regex pattern in ignore_patterns
    InvalidPattern { pattern: String, message: String },
    /// Failed to determine config directory
    NoConfigDir,
    /// IO error during config operations
    Io { message: String },
}

/// Store errors.
#[derive(Debug)]
pub enum DatabaseError {
    /// Failed to open the store
    OpenFailed { path: String, message: String },
    /// Query execution failed
    QueryFailed { message: String },
    /// Data serialization/deserialization error
    SerializationError { message: String },
    /// A row with the same id is already stored
    DuplicateId { id: String },
    /// Error reported by the storage engine
    Sqlite { message: String },
}

/// Search index errors.
#[derive(Debug)]
pub enum SearchError {
    CreateFailed { path: String, message: String },
    OpenFailed { path: String, message: String },
    InvalidQuery { query: String, message: String },
    IndexingFailed { message: String },
    Tantivy { message: String },
}

/// File watcher errors.
#[derive(Debug)]
pub enum WatcherError {
    WatchFailed { path: String, message: String },
    DirectoryNotFound { path: String },
    InvalidPattern { pattern: String, message: String },
    Notify { message: String },
}

/// Any error of the library.
#[derive(Debug)]
pub enum Error {
    Config(ConfigError),
    Database(DatabaseError),
    Search(SearchError),
    Watcher(WatcherError),
    Io { message: String },
}

/// `a`, then `b`, as a new string.
pub fn join2(a: &str, b: &str) -> (r: String)
    ensures
        r@ == a@ + b@,
{
    let s = String::from_str(a);
    s.concat(b)
}

/// `a`, `b`, `c`, then `d`, as a new string.
pub fn join4(a: &str, b: &str, c: &str, d: &str) -> (r: String)
    ensures
        r@ == a@ + b@ + c@ + d@,
{
    let s = String::from_str(a);
    let s = s.concat(b);
    let s = s.concat(c);
    s.concat(d)
}

impl ConfigError {
    /// The human-readable message of this error.
    pub fn to_string(&self) -> (r: String)
        ensures
            self matches ConfigError::NotFound { path } ==> r@ == "Configuration file not found at: "@ + path@,
            self matches ConfigError::InvalidPattern { pattern, message } ==>
                r@ == "Invalid regex pattern '"@ + pattern@ + "': "@ + message@,
    {
        match self {
            ConfigError::NotFound { path } => join2("Configuration file not found at: ", path.as_str()),
            ConfigError::ParseError { message } => join2("Failed to parse configuration: ", message.as_str()),
            ConfigError::InvalidValue { field, message } => {
                let s = join4("Invalid configuration value for '", field.as_str(), "': ", message.as_str());
                s
            },
            ConfigError::InvalidPattern { pattern, message } => join4(
                "Invalid regex pattern '",
                pattern.as_str(),
                "': ",
                message.as_str(),
            ),
            ConfigError::NoConfigDir => String::from_str("Could not determine configuration directory"),
            ConfigError::Io { message } => join2("Configuration IO error: ", message.as_str()),
        }
    }
}

impl DatabaseError {
    /// The human-readable message of this error.
    pub fn to_string(&self) -> (r: String)
        ensures
            self matches DatabaseError::QueryFailed { message } ==> r@ == "Database query failed: "@ + message@,
    {
        match self {
            DatabaseError::OpenFailed { path, message } => join4(
                "Failed to open database at ",
                path.as_str(),
                ": ",
                message.as_str(),
            ),
            DatabaseError::QueryFailed { message } => join2("Database query failed: ", message.as_str()),
            DatabaseError::SerializationError { message } => join2("Data serialization error: ", message.as_str()),
            DatabaseError::DuplicateId { id } => join2("A row with this id already exists: ", id.as_str()),
            DatabaseError::Sqlite { message } => join2("SQLite error: ", message.as_str()),
        }
    }
}

impl SearchError {
    /// The human-readable message of this error.
    pub fn to_string(&self) -> (r: String)
        ensures
            self matches SearchError::InvalidQuery { query, message } ==>
                r@ == "Invalid search query '"@ + query@ + "': "@ + message@,
    {
        match self {
            SearchError::CreateFailed { path, message } => join4(
                "Failed to create search index at ",
                path.as_str(),
                ": ",
                message.as_str(),
            ),
            SearchError::OpenFailed { path, message } => join4(
                "Failed to open search index at ",
                path.as_str(),
                ": ",
                message.as_str(),
            ),
            SearchError::InvalidQuery { query, message } => join4(
                "Invalid search query '",
                query.as_str(),
                "': ",
                message.as_str(),
            ),
            SearchError::IndexingFailed { message } => join2("Failed to index document: ", message.as_str()),
            SearchError::Tantivy { message } => join2("Search engine error: ", message.as_str()),
        }
    }
}

impl WatcherError {
    /// The human-readable message of this error.
    pub fn to_string(&self) -> (r: String)
        ensures
            self matches WatcherError::DirectoryNotFound { path } ==> r@ == "Directory not found: "@ + path@,
    {
        match self {
            WatcherError::WatchFailed { path, message } => join4(
                "Failed to watch directory ",
                path.as_str(),
                ": ",
                message.as_str(),
            ),
            WatcherError::DirectoryNotFound { path } => join2("Directory not found: ", path.as_str()),
            WatcherError::InvalidPattern { pattern, message } => join4(
                "Invalid ignore pattern '",
                pattern.as_str(),
                "': ",
                message.as_str(),
            ),
            WatcherError::Notify { message } => join2("File watcher error: ", message.as_str()),
        }
    }
}

impl Error {
    /// The human-readable message of this error: that of the wrapped error.
    pub fn to_string(&self) -> (r: String)
        ensures
            self matches Error::Io { message } ==> r@ == "IO error: "@ + message@,
    {
        match self {
            Error::Config(e) => e.to_string(),
            Error::Database(e) => e.to_string(),
            Error::Search(e) => e.to_string(),
            Error::Watcher(e) => e.to_string(),
            Error::Io { message } => join2("IO error: ", message.as_str()),
        }
    }
}

impl From<ConfigError> for Error {
    fn from(e: ConfigError) -> (r: Error) {
        Error::Config(e)
    }
}

impl vstd::std_specs::convert::FromSpecImpl<ConfigError> for Error {
    open spec fn obeys_from_spec() -> bool {
        true
    }

    open spec fn from_spec(e: ConfigError) -> Error {
        Error::Config(e)
    }
}

impl From<DatabaseError> for Error {
    fn from(e: DatabaseError) -> (r: Error) {
        Error::Database(e)
    }
}

impl vstd::std_specs::convert::FromSpecImpl<DatabaseError> for Error {
    open spec fn obeys_from_spec() -> bool {
        true
    }

    open spec fn from_spec(e: DatabaseError) -> Error {
        Error::Database(e)
    }
}

} // verus!
