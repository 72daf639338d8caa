//! The agent's configuration, after loading.
//!
//! Loading and layering the configuration files is the binary's work;
//! what it hands over is this plain value, immutable from then on. The
//! defaults the rest of the agent relies on are stated here.

use vstd::prelude::*;
use vstd::string::*;

verus! {

/// The settings of the mail transport.
#[derive(Debug, Clone)]
pub struct EmailConfig {
    pub smtp_server: String,
    pub username: String,
    pub password: String,
    pub from_address: String,
}

/// Everything the agent is configured with.
#[derive(Debug, Clone)]
pub struct Config {
    pub port: u16,
    pub address: Option<String>,
    pub repo_dir: Option<String>,
    pub index_interval_secs: Option<u64>,
    pub secrets_file: Option<String>,
    pub email: Option<EmailConfig>,
}

impl Config {
    /// The address to bind: as configured, or everywhere.
    pub fn bind_address(&self) -> (r: &str)
        ensures
            r@ == match self.address {
                Some(a) => a@,
                None => "0.0.0.0"@,
            },
    {
        match &self.address {
            Some(a) => a.as_str(),
            None => "0.0.0.0",
        }
    }

    /// How often the indexer runs: as configured, or every thirty
    /// seconds.
    pub fn interval_secs(&self) -> (r: u64)
        ensures
            r == match self.index_interval_secs {
                Some(v) => v,
                None => 30u64,
            },
    {
        match self.index_interval_secs {
            Some(v) => v,
            None => 30,
        }
    }
}

} // verus!
