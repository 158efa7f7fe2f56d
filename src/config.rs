use vstd::prelude::*;

verus! {

/// Name of the environment setting that holds the database connection URL.
pub const DATABASE_URL: &'static str = "DATABASE_URL";

/// Settings the server needs before it can start.
pub struct Config {
    /// Connection string for the backing database.
    pub database_url: String,
}

/// Why the settings could not be resolved.
#[derive(Debug, PartialEq, Eq, Structural)]
pub enum ConfigError {
    /// The database URL setting had no value.
    MissingRequiredSetting,
}

impl ConfigError {
    /// Diagnostic naming the setting at fault.
    pub fn message(&self) -> (r: &'static str)
        ensures
            r@ == "DATABASE_URL must be set"@,
    {
        "DATABASE_URL must be set"
    }
}

/// Builds the configuration from the value found for the database URL
/// (`None` when the setting is absent). Nothing else is consulted.
pub fn resolve(database_url: Option<String>) -> (r: Result<Config, ConfigError>)
    ensures
        database_url is None <==> r is Err,
        r matches Ok(c) ==> database_url == Some(c.database_url),
        r matches Err(e) ==> e == ConfigError::MissingRequiredSetting,
{
    match database_url {
        Some(url) => Ok(Config { database_url: url }),
        None => Err(ConfigError::MissingRequiredSetting),
    }
}

} // verus!
