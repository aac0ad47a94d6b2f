//! The application configuration: one explicit value handed to each
//! component at construction, with no process-wide mutable state.
//!
//! The unverified shell reads the environment and passes whatever it
//! found; which settings are required, and the error when one is
//! missing, is decided here.

use vstd::prelude::*;
use vstd::string::StringExecFns;
use crate::error::Error;

verus! {

/// Everything the pipeline needs to run: where the content store lives
/// and the credential for the providers.
pub struct Config {
    pub database_url: String,
    pub openai_api_key: String,
}

impl Config {
    /// Assembles the configuration from the settings as found, failing
    /// with a configuration error naming the first missing one.
    pub fn from_settings(database_url: Option<String>, openai_api_key: Option<String>) -> (r:
        Result<Config, Error>)
        ensures
            r is Ok <==> database_url is Some && openai_api_key is Some,
            r matches Ok(c) ==> c.database_url == database_url->Some_0 && c.openai_api_key
                == openai_api_key->Some_0,
            r matches Err(e) ==> (e matches Error::Config(m) && (if database_url is None {
                m@ == "DATABASE_URL must be set"@
            } else {
                m@ == "OPENAI_API_KEY must be set"@
            })),
    {
        match (database_url, openai_api_key) {
            (Some(db), Some(key)) => Ok(Config { database_url: db, openai_api_key: key }),
            (None, _) => Err(Error::Config(String::from_str("DATABASE_URL must be set"))),
            (Some(_), None) => Err(
                Error::Config(String::from_str("OPENAI_API_KEY must be set")),
            ),
        }
    }
}

} // verus!
