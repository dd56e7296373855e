//! Connection and batching settings, with their validation rules.

use vstd::prelude::*;

verus! {

/// Settings for the graph-store connection and for import batching.
#[derive(Debug, Clone)]
pub struct Config {
    /// Store URI.
    pub neo4j_uri: String,
    /// Store user.
    pub neo4j_user: String,
    /// Store password.
    pub neo4j_password: String,
    /// Store database name, when not the default.
    pub neo4j_database: Option<String>,
    /// Records per persistence chunk.
    pub batch_size: usize,
}

/// Why a configuration is unusable, if it is: the first failing rule.
pub open spec fn spec_config_error(c: Config) -> Option<Seq<char>> {
    if c.neo4j_uri@.len() == 0 {
        Some("Neo4j URI cannot be empty"@)
    } else if c.neo4j_user@.len() == 0 {
        Some("Neo4j user cannot be empty"@)
    } else if c.neo4j_password@.len() == 0 {
        Some("Neo4j password cannot be empty"@)
    } else if c.batch_size == 0 {
        Some("Batch size must be greater than 0"@)
    } else {
        None
    }
}

impl Config {
    /// Checks that the URI, user and password are nonempty and the batch
    /// size positive.
    pub fn validate(&self) -> (r: Result<(), String>)
        ensures
            match r {
                Ok(_) => spec_config_error(*self) is None,
                Err(e) => spec_config_error(*self) == Some(e@),
            },
    {
        if self.neo4j_uri.as_str().is_empty() {
            return Err(String::from_str("Neo4j URI cannot be empty"));
        }
        if self.neo4j_user.as_str().is_empty() {
            return Err(String::from_str("Neo4j user cannot be empty"));
        }
        if self.neo4j_password.as_str().is_empty() {
            return Err(String::from_str("Neo4j password cannot be empty"));
        }
        if self.batch_size == 0 {
            return Err(String::from_str("Batch size must be greater than 0"));
        }
        Ok(())
    }
}

impl Default for Config {
    /// Local defaults: a local bolt endpoint and a batch size of 1000.
    fn default() -> (c: Config)
        ensures
            c.neo4j_uri@ == "bolt://localhost:7687"@,
            c.neo4j_user@ == "neo4j"@,
            c.neo4j_password@ == "password"@,
            c.neo4j_database is None,
            c.batch_size == 1000,
    {
        Config {
            neo4j_uri: String::from_str("bolt://localhost:7687"),
            neo4j_user: String::from_str("neo4j"),
            neo4j_password: String::from_str("password"),
            neo4j_database: None,
            batch_size: 1000,
        }
    }
}

} // verus!
