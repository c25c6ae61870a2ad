//! Configuration value types, with their documented defaults. Reading the
//! environment is the caller's side; these types carry the result.

use vstd::prelude::*;

verus! {

/// Where the relational store is, and how many connections to pool.
pub struct DatabaseConfig {
    pub database_url: String,
    pub max_connections: u32,
}

impl core::default::Default for DatabaseConfig {
    /// A local database and a pool of ten connections.
    fn default() -> (r: DatabaseConfig)
        ensures
            r.database_url@ == "postgres://localhost/repository_pattern"@,
            r.max_connections == 10,
    {
        DatabaseConfig {
            database_url: String::from_str("postgres://localhost/repository_pattern"),
            max_connections: 10,
        }
    }
}

/// The address the server listens on.
pub struct ServerConfig {
    pub host: String,
    pub port: u16,
}

impl core::default::Default for ServerConfig {
    /// Listen on every interface, port 3000.
    fn default() -> (r: ServerConfig)
        ensures
            r.host@ == "0.0.0.0"@,
            r.port == 3000,
    {
        ServerConfig { host: String::from_str("0.0.0.0"), port: 3000 }
    }
}

/// Which modules are switched on.
pub struct ModulesConfig {
    pub users_enabled: bool,
}

impl core::default::Default for ModulesConfig {
    /// The users module is on.
    fn default() -> (r: ModulesConfig)
        ensures
            r.users_enabled,
    {
        ModulesConfig { users_enabled: true }
    }
}

/// Everything the application is configured with.
pub struct AppConfig {
    pub database: DatabaseConfig,
    pub server: ServerConfig,
    pub modules: ModulesConfig,
}

/// Why configuration loading failed.
pub enum ConfigError {
    MissingEnvVar(String),
    InvalidValue(String),
    Other(String),
}

impl ConfigError {
    /// Render the error for an operator.
    pub fn message(&self) -> (r: String)
        ensures
            match self {
                ConfigError::MissingEnvVar(name) => r@ == "Missing environment variable: "@
                    + name@,
                ConfigError::InvalidValue(name) => r@ == "Invalid configuration value for "@
                    + name@,
                ConfigError::Other(text) => r@ == "Configuration error: "@ + text@,
            },
    {
        match self {
            ConfigError::MissingEnvVar(name) => {
                let mut r = String::from_str("Missing environment variable: ");
                r.append(name.as_str());
                r
            },
            ConfigError::InvalidValue(name) => {
                let mut r = String::from_str("Invalid configuration value for ");
                r.append(name.as_str());
                r
            },
            ConfigError::Other(text) => {
                let mut r = String::from_str("Configuration error: ");
                r.append(text.as_str());
                r
            },
        }
    }
}

} // verus!
