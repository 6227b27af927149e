//! Application configuration: the settings the components take, their
//! defaults, and validation. Loading settings from files or the
//! environment is the caller's business; judging them happens here.

use vstd::prelude::*;

use crate::text::str_eq;

verus! {

/// Settings for the server half.
#[derive(Clone, Debug)]
pub struct ServerConfig {
    pub host: String,
    pub port: u16,
    pub timeout: u64,
    pub max_connections: u32,
}

/// Settings for the database half.
#[derive(Clone, Debug)]
pub struct DatabaseConfig {
    pub url: String,
    pub max_connections: u32,
    pub timeout: u64,
    pub retry_attempts: u32,
}

/// Settings for logging.
#[derive(Clone, Debug)]
pub struct LoggingConfig {
    pub level: String,
    pub file: Option<String>,
    pub max_size: u64,
    pub max_files: u32,
}

/// Feature switches.
#[derive(Clone, Copy, Debug, PartialEq, Eq, Structural)]
pub struct FeatureConfig {
    pub enable_cache: bool,
    pub enable_metrics: bool,
    pub enable_tracing: bool,
    pub debug_mode: bool,
}

/// The whole application configuration.
#[derive(Clone, Debug)]
pub struct AppConfig {
    pub server: ServerConfig,
    pub database: DatabaseConfig,
    pub logging: LoggingConfig,
    pub features: FeatureConfig,
}

/// Whether `level` names one of the log levels.
pub open spec fn spec_valid_level(level: Seq<char>) -> bool {
    level == "trace"@ || level == "debug"@ || level == "info"@ || level == "warn"@ || level
        == "error"@
}

/// The complaints validation raises against `c`, in a fixed order; a
/// sound configuration raises none.
pub open spec fn spec_validation_errors(c: AppConfig) -> Seq<Seq<char>> {
    let s0 = Seq::<Seq<char>>::empty();
    let s1 = if c.server.port == 0 {
        s0.push("server port must not be zero"@)
    } else {
        s0
    };
    let s2 = if c.server.timeout == 0 {
        s1.push("server timeout must not be zero"@)
    } else {
        s1
    };
    let s3 = if c.server.max_connections == 0 {
        s2.push("server connection limit must not be zero"@)
    } else {
        s2
    };
    let s4 = if c.database.url@.len() == 0 {
        s3.push("database url must not be empty"@)
    } else {
        s3
    };
    let s5 = if c.database.max_connections == 0 {
        s4.push("database connection limit must not be zero"@)
    } else {
        s4
    };
    let s6 = if c.database.timeout == 0 {
        s5.push("database timeout must not be zero"@)
    } else {
        s5
    };
    let s7 = if !spec_valid_level(c.logging.level@) {
        s6.push("invalid log level: "@ + c.logging.level@)
    } else {
        s6
    };
    let s8 = if c.logging.max_size == 0 {
        s7.push("log file size limit must not be zero"@)
    } else {
        s7
    };
    if c.logging.max_files == 0 {
        s8.push("log file count limit must not be zero"@)
    } else {
        s8
    }
}

/// Whether `c` raises no complaint.
pub open spec fn spec_valid_config(c: AppConfig) -> bool {
    spec_validation_errors(c).len() == 0
}

impl AppConfig {
    /// Checks every rule and returns one line per broken one; an empty
    /// answer means the configuration is sound.
    #[verifier::rlimit(100)]
    pub fn validate(&self) -> (r: Vec<String>)
        ensures
            r.deep_view() == spec_validation_errors(*self),
            r@.len() == 0 <==> spec_valid_config(*self),
    {
        let mut errors: Vec<String> = Vec::new();
        if self.server.port == 0 {
            errors.push("server port must not be zero".to_owned());
        }
        if self.server.timeout == 0 {
            errors.push("server timeout must not be zero".to_owned());
        }
        if self.server.max_connections == 0 {
            errors.push("server connection limit must not be zero".to_owned());
        }
        if self.database.url.as_str().is_empty() {
            errors.push("database url must not be empty".to_owned());
        }
        if self.database.max_connections == 0 {
            errors.push("database connection limit must not be zero".to_owned());
        }
        if self.database.timeout == 0 {
            errors.push("database timeout must not be zero".to_owned());
        }
        let level_ok = str_eq(self.logging.level.as_str(), "trace") || str_eq(
            self.logging.level.as_str(),
            "debug",
        ) || str_eq(self.logging.level.as_str(), "info") || str_eq(
            self.logging.level.as_str(),
            "warn",
        ) || str_eq(self.logging.level.as_str(), "error");
        if !level_ok {
            let mut line = "invalid log level: ".to_owned();
            line.append(self.logging.level.as_str());
            errors.push(line);
        }
        if self.logging.max_size == 0 {
            errors.push("log file size limit must not be zero".to_owned());
        }
        if self.logging.max_files == 0 {
            errors.push("log file count limit must not be zero".to_owned());
        }
        proof {
            assert(errors.deep_view() =~= spec_validation_errors(*self));
        }
        errors
    }
}

impl Default for AppConfig {
    /// The configuration the application starts from: a local server on
    /// port 8080, an in-memory database, plain informational logging, and
    /// only the cache switched on.
    fn default() -> (r: AppConfig)
        ensures
            r.server.host@ == "localhost"@,
            r.server.port == 8080,
            r.server.timeout == 30,
            r.server.max_connections == 100,
            r.database.url@ == "sqlite://:memory:"@,
            r.database.max_connections == 10,
            r.database.timeout == 5,
            r.database.retry_attempts == 3,
            r.logging.level@ == "info"@,
            r.logging.file is None,
            r.logging.max_size == 10485760,
            r.logging.max_files == 5,
            r.features.enable_cache,
            !r.features.enable_metrics,
            !r.features.enable_tracing,
            !r.features.debug_mode,
            spec_valid_config(r),
    {
        let c = AppConfig {
            server: ServerConfig {
                host: "localhost".to_owned(),
                port: 8080,
                timeout: 30,
                max_connections: 100,
            },
            database: DatabaseConfig {
                url: "sqlite://:memory:".to_owned(),
                max_connections: 10,
                timeout: 5,
                retry_attempts: 3,
            },
            logging: LoggingConfig {
                level: "info".to_owned(),
                file: None,
                max_size: 10485760,
                max_files: 5,
            },
            features: FeatureConfig {
                enable_cache: true,
                enable_metrics: false,
                enable_tracing: false,
                debug_mode: false,
            },
        };
        proof {
            reveal_strlit("sqlite://:memory:");
            assert(c.database.url@.len() == 17);
        }
        c
    }
}

/// Something that wants to hear when the configuration changes.
pub trait ConfigWatcher {
    /// Called with the configuration as it now stands.
    fn on_config_changed(&self, config: &AppConfig);
}

} // verus!
