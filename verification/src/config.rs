use vstd::prelude::*;

verus! {

/// Where the backing database lives: a connection URL.
pub struct DatabaseConfig {
    pub url: String,
}

/// Where the web layer listens: a bind address.
pub struct WebConfig {
    pub addr: String,
}

/// Process configuration: the database connection URL and the bind address
/// are the only inputs the process takes.
pub struct Config {
    pub database: DatabaseConfig,
    pub web: WebConfig,
}

impl Config {
    /// Assembles a configuration from its two parts, keeping both verbatim.
    pub fn new(database: DatabaseConfig, web: WebConfig) -> (r: Config)
        ensures
            r.database.url@ == database.url@,
            r.web.addr@ == web.addr@,
    {
        Config { database, web }
    }
}

} // verus!
