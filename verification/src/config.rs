//! Configuration of the server and of the capture store's bounds.

use vstd::prelude::*;

verus! {

/// The whole configuration.
#[derive(Debug, Clone)]
pub struct RustbinConfig {
    pub server: ServerConfig,
    pub database: DatabaseConfig,
    pub rate_limiting: RateLimitingConfig,
    pub limits: LimitsConfig,
    pub cleanup: CleanupConfig,
    pub logging: LoggingConfig,
}

#[derive(Debug, Clone)]
pub struct ServerConfig {
    /// Server bind address (default: "0.0.0.0")
    pub host: String,
    /// Server port (default: 3000)
    pub port: u16,
}

#[derive(Debug, Clone)]
pub struct DatabaseConfig {
    /// Database URL (e.g., "sqlite://rustbin.db")
    pub url: String,
    /// Maximum number of database connections (default: 5)
    pub max_connections: u32,
}

#[derive(Debug, Clone, Copy)]
pub struct RateLimitingConfig {
    /// Requests allowed per second (default: 2)
    pub requests_per_second: u32,
    /// Burst size for rate limiting (default: 5)
    pub burst_size: u32,
    /// Interval in seconds for rate limit cleanup (default: 60)
    pub cleanup_interval_seconds: u64,
}

#[derive(Debug, Clone, Copy)]
pub struct LimitsConfig {
    /// Maximum number of requests stored per bin (default: 100)
    pub max_requests_per_bin: i64,
    /// Maximum body size in bytes (default: 1048576 = 1MB)
    pub max_body_size: usize,
    /// Maximum headers size in bytes (default: 1048576 = 1MB)
    pub max_headers_size: usize,
}

#[derive(Debug, Clone, Copy)]
pub struct CleanupConfig {
    /// How long in hours to keep inactive bins (default: 1)
    pub bin_expiry_hours: i64,
    /// Cleanup task interval in seconds (default: 60)
    pub cleanup_interval_seconds: u64,
}

#[derive(Debug, Clone)]
pub struct LoggingConfig {
    /// Log filter (default: "rustbin=info,tower_http=warn,sqlx=warn,hyper=warn")
    pub filter: String,
}

/// The default bounds: 100 requests per bin, bodies and headers of 1 MiB.
pub open spec fn default_limits() -> LimitsConfig {
    LimitsConfig { max_requests_per_bin: 100, max_body_size: 1048576, max_headers_size: 1048576 }
}

/// Whether `c` holds the default value of every setting.
pub open spec fn is_default_config(c: RustbinConfig) -> bool {
    &&& c.server.host@ == "0.0.0.0"@
    &&& c.server.port == 3000
    &&& c.database.url@ == "sqlite://rustbin.db"@
    &&& c.database.max_connections == 5
    &&& c.rate_limiting == (RateLimitingConfig {
        requests_per_second: 2,
        burst_size: 5,
        cleanup_interval_seconds: 60,
    })
    &&& c.limits == default_limits()
    &&& c.cleanup == (CleanupConfig { bin_expiry_hours: 1, cleanup_interval_seconds: 60 })
    &&& c.logging.filter@ == "rustbin=info,tower_http=warn,sqlx=warn,hyper=warn"@
}

impl Default for LimitsConfig {
    fn default() -> (r: Self)
        ensures
            r == default_limits(),
    {
        Self {
            max_requests_per_bin: 100,
            max_body_size: 1024 * 1024,
            max_headers_size: 1024 * 1024,
        }
    }
}

impl Default for RustbinConfig {
    fn default() -> (r: Self)
        ensures
            is_default_config(r),
    {
        Self {
            server: ServerConfig { host: "0.0.0.0".to_owned(), port: 3000 },
            database: DatabaseConfig { url: "sqlite://rustbin.db".to_owned(), max_connections: 5 },
            rate_limiting: RateLimitingConfig {
                requests_per_second: 2,
                burst_size: 5,
                cleanup_interval_seconds: 60,
            },
            limits: LimitsConfig {
                max_requests_per_bin: 100,
                max_body_size: 1024 * 1024,
                max_headers_size: 1024 * 1024,
            },
            cleanup: CleanupConfig { bin_expiry_hours: 1, cleanup_interval_seconds: 60 },
            logging: LoggingConfig {
                filter: "rustbin=info,tower_http=warn,sqlx=warn,hyper=warn".to_owned(),
            },
        }
    }
}

impl RustbinConfig {
    /// The configuration to run with: the one that was loaded from the
    /// configuration file, or the defaults where none could be loaded.
    pub fn from_file_or_default(loaded: Option<RustbinConfig>) -> (r: RustbinConfig)
        ensures
            match loaded {
                Some(config) => r == config,
                None => is_default_config(r),
            },
    {
        match loaded {
            Some(config) => config,
            None => RustbinConfig::default(),
        }
    }

    /// The configuration to write to the configuration file: the defaults
    /// where the file does not exist yet, nothing where it does.
    pub fn create_default_config_if_missing(exists: bool) -> (r: Option<RustbinConfig>)
        ensures
            r is Some <==> !exists,
            r matches Some(config) ==> is_default_config(config),
    {
        if !exists {
            Some(RustbinConfig::default())
        } else {
            None
        }
    }
}

} // verus!
