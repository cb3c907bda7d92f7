//! The scraper's settings, built once at start-up from the values that the
//! environment gives.
use vstd::prelude::*;
use crate::number::{all_digits, digits_value};

verus! {

/// Most products scraped in one pass where no setting says otherwise.
pub const DEFAULT_MAX_PRODUCTS_SCRAPE: usize = 30000;

/// The scraper's settings.
#[derive(Clone, Debug)]
pub struct EnvConfig {
    pub db_connection_uri: String,
    pub max_products_scrape: usize,
}

/// Why the settings could not be built.
#[derive(Clone, Copy, Debug, PartialEq, Eq, Structural)]
pub enum ConfigError {
    /// No database address was given.
    MissingDatabaseUrl,
    /// The product cap given is not a number.
    InvalidMaxProducts,
}

/// The unsigned integer that `s` spells: an optional `+`, then at least one
/// digit, with a value that fits in `usize`.
pub open spec fn count_value(s: Seq<char>) -> Option<usize> {
    let b = if s.len() > 0 && s[0] == '+' { s.drop_first() } else { s };
    if b.len() > 0 && all_digits(b) && digits_value(b) <= usize::MAX {
        Some(digits_value(b) as usize)
    } else {
        None
    }
}

/// Relies on `str::parse::<usize>`: an optional `+` and decimal digits
/// whose value fits, and nothing else, is read; any other text is refused.
#[verifier::external_body]
fn parse_count(s: &str) -> (r: Option<usize>)
    ensures
        r == count_value(s@),
{
    s.parse::<usize>().ok()
}

/// The settings from the database address and the product cap as given;
/// a missing cap is `DEFAULT_MAX_PRODUCTS_SCRAPE`.
pub open spec fn config_of(db: Option<Seq<char>>, max_products: Option<Seq<char>>) -> Result<(Seq<char>, usize), ConfigError> {
    match db {
        None => Err(ConfigError::MissingDatabaseUrl),
        Some(uri) => match max_products {
            None => Ok((uri, DEFAULT_MAX_PRODUCTS_SCRAPE)),
            Some(t) => match count_value(t) {
                Some(n) => Ok((uri, n)),
                None => Err(ConfigError::InvalidMaxProducts),
            },
        },
    }
}

impl EnvConfig {
    /// Builds the settings (see `config_of`).
    pub fn from_values(db_connection_uri: Option<String>, max_products_scrape: Option<String>) -> (r: Result<EnvConfig, ConfigError>)
        ensures
            config_of(
                match db_connection_uri {
                    Some(s) => Some(s@),
                    None => None,
                },
                match max_products_scrape {
                    Some(s) => Some(s@),
                    None => None,
                },
            ) == match r {
                Ok(c) => Ok((c.db_connection_uri@, c.max_products_scrape)),
                Err(e) => Err::<(Seq<char>, usize), ConfigError>(e),
            },
    {
        let uri = match db_connection_uri {
            Some(u) => u,
            None => return Err(ConfigError::MissingDatabaseUrl),
        };
        let max = match max_products_scrape {
            None => DEFAULT_MAX_PRODUCTS_SCRAPE,
            Some(t) => match parse_count(t.as_str()) {
                Some(n) => n,
                None => return Err(ConfigError::InvalidMaxProducts),
            },
        };
        Ok(EnvConfig { db_connection_uri: uri, max_products_scrape: max })
    }
}

} // verus!
