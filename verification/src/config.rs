//! Engine and database configuration values.
//!
//! The value types and their defaults live here with exact contracts;
//! loading them from configuration files and environment variables is
//! I/O and stays with the caller.

use vstd::prelude::*;
use vstd::string::StringExecFns;

verus! {

/// Relies on `num_cpus::get`: the number of available logical CPUs of the
/// current system, which its documentation promises is always at least
/// one.
#[verifier::external_body]
fn available_cpus() -> (r: usize)
    ensures
        r >= 1,
{
    num_cpus::get()
}

/// Errors that can occur during configuration loading.
#[derive(Debug, Clone, PartialEq, Eq)]
pub enum ConfigError {
    /// Configuration file not found.
    FileNotFound(String),
    /// Invalid configuration value.
    InvalidValue { key: String, message: String },
    /// Missing required configuration.
    MissingRequired(String),
    /// Environment variable error.
    EnvError(String),
    /// An error reported by the underlying configuration reader.
    SourceError(String),
}

/// The default thread pool size: one worker per available CPU.
pub fn default_thread_pool_size() -> (r: usize)
    ensures
        r >= 1,
{
    available_cpus()
}

/// The default memory limit for the AD engine, in megabytes.
pub fn default_memory_limit_mb() -> (r: usize)
    ensures
        r == 1024,
{
    1024
}

/// The default Monte Carlo batch size.
pub fn default_mc_paths() -> (r: usize)
    ensures
        r == 10000,
{
    10_000
}

/// The default maximum connection pool size.
pub fn default_max_connections() -> (r: u32)
    ensures
        r == 10,
{
    10
}

/// The default connection timeout, in seconds.
pub fn default_connection_timeout() -> (r: u64)
    ensures
        r == 30,
{
    30
}

/// Engine configuration.
#[derive(Debug, Clone)]
pub struct EngineConfig {
    /// Thread pool size for parallel computation.
    pub thread_pool_size: usize,
    /// Memory limit for the AD engine, in megabytes.
    pub memory_limit_mb: usize,
    /// Monte Carlo simulation paths (default batch size).
    pub mc_paths: usize,
    /// Checkpointing enabled.
    pub checkpointing_enabled: bool,
}

impl Default for EngineConfig {
    /// One worker per CPU, a gigabyte of AD memory, ten thousand paths
    /// and no checkpointing.
    fn default() -> (r: Self)
        ensures
            r.thread_pool_size >= 1,
            r.memory_limit_mb == 1024,
            r.mc_paths == 10000,
            !r.checkpointing_enabled,
    {
        EngineConfig {
            thread_pool_size: default_thread_pool_size(),
            memory_limit_mb: default_memory_limit_mb(),
            mc_paths: default_mc_paths(),
            checkpointing_enabled: false,
        }
    }
}

/// Database configuration.
#[derive(Debug, Clone)]
pub struct DatabaseConfig {
    /// Database connection URL.
    pub url: String,
    /// Maximum connection pool size.
    pub max_connections: u32,
    /// Connection timeout, in seconds.
    pub connection_timeout_secs: u64,
}

impl Default for DatabaseConfig {
    /// An empty URL, ten pooled connections and a thirty-second timeout.
    fn default() -> (r: Self)
        ensures
            r.url@ == Seq::<char>::empty(),
            r.max_connections == 10,
            r.connection_timeout_secs == 30,
    {
        proof {
            reveal_strlit("");
            assert(""@ =~= Seq::<char>::empty());
        }
        DatabaseConfig {
            url: String::from_str(""),
            max_connections: default_max_connections(),
            connection_timeout_secs: default_connection_timeout(),
        }
    }
}

/// Main application settings.
#[derive(Debug, Clone)]
pub struct Settings {
    /// Engine configuration.
    pub engine: EngineConfig,
    /// Database configuration.
    pub database: DatabaseConfig,
}

impl Default for Settings {
    /// The default engine and database configurations.
    fn default() -> (r: Self)
        ensures
            r.engine.thread_pool_size >= 1,
            r.engine.memory_limit_mb == 1024,
            r.engine.mc_paths == 10000,
            !r.engine.checkpointing_enabled,
            r.database.url@ == Seq::<char>::empty(),
            r.database.max_connections == 10,
            r.database.connection_timeout_secs == 30,
    {
        Settings { engine: EngineConfig::default(), database: DatabaseConfig::default() }
    }
}

} // verus!
