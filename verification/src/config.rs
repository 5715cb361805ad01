//! The framework's configuration, and a handle that shares one
//! configuration between its users.

use vstd::prelude::*;
use std::sync::Arc;
use crate::types::LogLevel;

verus! {

/// Clones the shared pointer with `Arc::clone`, whose documentation says
/// that it makes another pointer to the same allocation: the contract says
/// that the value behind it is the same.
#[verifier::external_body]
fn share(a: &Arc<Config>) -> (r: Arc<Config>)
    ensures
        *r == **a,
{
    Arc::clone(a)
}

/// The framework's settings. Paths are held as text.
#[derive(Clone, Debug)]
pub struct Config {
    pub app_name: String,
    pub version: String,
    pub storage_path: String,
    pub log_level: LogLevel,
    pub plugins_dir: String,
    pub data_dir: String,
    pub debug_mode: bool,
    pub max_threads: usize,
    pub storage_timeout: u64,
    pub enable_fts5: bool,
}

/// `c` holds the default settings: the application "Malverde" at version
/// "0.1.0", storage in "malverde.db", logging at info level, plugins in
/// "plugins", data in "data", no debug mode, 4 threads, a storage timeout
/// of 30 seconds, and full-text search enabled.
pub open spec fn is_default_config(c: Config) -> bool {
    &&& c.app_name@ == "Malverde"@
    &&& c.version@ == "0.1.0"@
    &&& c.storage_path@ == "malverde.db"@
    &&& c.log_level == LogLevel::Info
    &&& c.plugins_dir@ == "plugins"@
    &&& c.data_dir@ == "data"@
    &&& !c.debug_mode
    &&& c.max_threads == 4
    &&& c.storage_timeout == 30
    &&& c.enable_fts5
}

impl Default for Config {
    fn default() -> (r: Config)
        ensures
            is_default_config(r),
    {
        Config {
            app_name: String::from_str("Malverde"),
            version: String::from_str("0.1.0"),
            storage_path: String::from_str("malverde.db"),
            log_level: LogLevel::Info,
            plugins_dir: String::from_str("plugins"),
            data_dir: String::from_str("data"),
            debug_mode: false,
            max_threads: 4,
            storage_timeout: 30,
            enable_fts5: true,
        }
    }
}

impl Config {
    /// The default settings; see `is_default_config`.
    pub fn new() -> (r: Config)
        ensures
            is_default_config(r),
    {
        Config::default()
    }
}

/// One configuration, shared between its users.
#[derive(Clone, Debug)]
pub struct SharedConfig {
    inner: Arc<Config>,
}

impl SharedConfig {
    /// The shared configuration.
    pub closed spec fn config(self) -> Config {
        *self.inner
    }

    /// Shares `config`.
    pub fn new(config: Config) -> (r: SharedConfig)
        ensures
            r.config() == config,
    {
        SharedConfig { inner: Arc::new(config) }
    }

    /// Another handle on the shared configuration.
    pub fn get(&self) -> (r: Arc<Config>)
        ensures
            *r == self.config(),
    {
        share(&self.inner)
    }

    /// The shared configuration.
    pub fn settings(&self) -> (r: &Config)
        ensures
            *r == self.config(),
    {
        &*self.inner
    }
}

} // verus!
