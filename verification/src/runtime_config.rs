//! Server and command-line configuration values and their errors.
//!
//! As with the engine settings, the value types and their defaults carry
//! exact contracts here; reading environment variables and configuration
//! files is I/O and stays with the caller.

use vstd::prelude::*;
use vstd::string::StringExecFns;

use crate::config::default_thread_pool_size;

verus! {

/// The default choice of enabling a feature.
pub fn default_true() -> (r: bool)
    ensures
        r,
{
    true
}

/// The default REST API bind address.
pub fn default_rest_addr() -> (r: String)
    ensures
        r@ == "0.0.0.0:8080"@,
{
    String::from_str("0.0.0.0:8080")
}

/// The default gRPC bind address.
pub fn default_grpc_addr() -> (r: String)
    ensures
        r@ == "0.0.0.0:50051"@,
{
    String::from_str("0.0.0.0:50051")
}

/// The default number of worker threads: one per available CPU.
pub fn default_workers() -> (r: usize)
    ensures
        r >= 1,
{
    default_thread_pool_size()
}

/// Server configuration.
#[derive(Debug, Clone)]
pub struct ServerConfig {
    /// Enable the REST API.
    pub rest_enabled: bool,
    /// REST API address.
    pub rest_addr: String,
    /// Enable the gRPC API.
    pub grpc_enabled: bool,
    /// gRPC address.
    pub grpc_addr: String,
    /// Number of worker threads.
    pub workers: usize,
}

impl Default for ServerConfig {
    /// REST enabled on its default address, gRPC disabled on its default
    /// address, and one worker per CPU.
    fn default() -> (r: Self)
        ensures
            r.rest_enabled,
            r.rest_addr@ == "0.0.0.0:8080"@,
            !r.grpc_enabled,
            r.grpc_addr@ == "0.0.0.0:50051"@,
            r.workers >= 1,
    {
        ServerConfig {
            rest_enabled: true,
            rest_addr: default_rest_addr(),
            grpc_enabled: false,
            grpc_addr: default_grpc_addr(),
            workers: default_workers(),
        }
    }
}

/// Server-specific errors.
#[derive(Debug, Clone, PartialEq, Eq)]
pub enum ServerError {
    /// Pricing error.
    Pricing(String),
    /// Calibration error.
    Calibration(String),
    /// Invalid request.
    InvalidRequest(String),
    /// Not found.
    NotFound(String),
    /// Internal error.
    Internal(String),
}

/// The health-check payload: service status and crate version.
#[derive(Debug, Clone, PartialEq, Eq)]
pub struct HealthResponse {
    /// Service status.
    pub status: String,
    /// Crate version.
    pub version: String,
}

/// The default log level.
pub fn default_log_level() -> (r: String)
    ensures
        r@ == "info"@,
{
    String::from_str("info")
}

/// The default output directory.
pub fn default_output_dir() -> (r: String)
    ensures
        r@ == "./output"@,
{
    String::from_str("./output")
}

/// The default number of Monte Carlo paths.
pub fn default_num_paths() -> (r: usize)
    ensures
        r == 10000,
{
    10_000
}

/// The default number of pricing threads: one per available CPU.
pub fn default_num_threads() -> (r: usize)
    ensures
        r >= 1,
{
    default_thread_pool_size()
}

/// The default database connection pool size.
pub fn default_pool_size() -> (r: u32)
    ensures
        r == 5,
{
    5
}

/// CLI-specific errors.
#[derive(Debug, Clone, PartialEq, Eq)]
pub enum CliError {
    /// Configuration error.
    Config(String),
    /// I/O error.
    Io(String),
    /// Pricing error.
    Pricing(String),
    /// Calibration error.
    Calibration(String),
    /// Invalid argument.
    InvalidArgument(String),
    /// File not found.
    FileNotFound(String),
    /// Parse error.
    Parse(String),
}

/// General CLI settings.
#[derive(Debug, Clone)]
pub struct GeneralConfig {
    /// Log level.
    pub log_level: String,
    /// Output directory.
    pub output_dir: String,
}

impl Default for GeneralConfig {
    /// Informational logging into the local output directory.
    fn default() -> (r: Self)
        ensures
            r.log_level@ == "info"@,
            r.output_dir@ == "./output"@,
    {
        GeneralConfig { log_level: default_log_level(), output_dir: default_output_dir() }
    }
}

/// Pricing configuration.
#[derive(Debug, Clone)]
pub struct PricingConfig {
    /// Default number of Monte Carlo paths.
    pub default_num_paths: usize,
    /// Number of threads for parallel pricing.
    pub num_threads: usize,
    /// Enable compiler-level AD.
    pub enzyme_enabled: bool,
}

impl Default for PricingConfig {
    /// Ten thousand paths on one thread per CPU, with compiler-level AD
    /// off.
    fn default() -> (r: Self)
        ensures
            r.default_num_paths == 10000,
            r.num_threads >= 1,
            !r.enzyme_enabled,
    {
        PricingConfig {
            default_num_paths: default_num_paths(),
            num_threads: default_num_threads(),
            enzyme_enabled: false,
        }
    }
}

/// Database configuration for the command line.
#[derive(Debug, Clone)]
pub struct DatabaseConfig {
    /// Database URL.
    pub url: Option<String>,
    /// Connection pool size.
    pub pool_size: u32,
}

impl Default for DatabaseConfig {
    /// No URL and five pooled connections.
    fn default() -> (r: Self)
        ensures
            r.url is None,
            r.pool_size == 5,
    {
        DatabaseConfig { url: None, pool_size: default_pool_size() }
    }
}

/// CLI configuration.
#[derive(Debug, Clone)]
pub struct CliConfig {
    /// General settings.
    pub general: GeneralConfig,
    /// Pricing settings.
    pub pricing: PricingConfig,
    /// Database settings.
    pub database: DatabaseConfig,
}

impl Default for CliConfig {
    /// The default general, pricing and database settings.
    fn default() -> (r: Self)
        ensures
            r.general.log_level@ == "info"@,
            r.pricing.default_num_paths == 10000,
            r.database.pool_size == 5,
    {
        CliConfig {
            general: GeneralConfig::default(),
            pricing: PricingConfig::default(),
            database: DatabaseConfig::default(),
        }
    }
}

} // verus!
