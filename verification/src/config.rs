use vstd::prelude::*;

verus! {

/// The global configuration.
#[derive(Clone)]
pub struct Config {
    /// The server configuration
    pub server: ServerConfig,
    /// The logger configuration
    pub log: LogConfig,
}

#[derive(Clone)]
pub struct ServerConfig {
    /// The server IP address
    pub addr: String,
}

#[derive(Clone)]
pub struct LogConfig {
    /// The logging level
    pub level: String,
    /// The log file path
    pub path: String,
}

impl Default for ServerConfig {
    fn default() -> (r: Self)
        ensures
            r.addr@ == Seq::<char>::empty(),
    {
        ServerConfig { addr: String::new() }
    }
}

impl Default for LogConfig {
    fn default() -> (r: Self)
        ensures
            r.level@ == Seq::<char>::empty(),
            r.path@ == Seq::<char>::empty(),
    {
        LogConfig { level: String::new(), path: String::new() }
    }
}

impl Default for Config {
    fn default() -> (r: Self)
        ensures
            r.server.addr@ == Seq::<char>::empty(),
            r.log.level@ == Seq::<char>::empty(),
            r.log.path@ == Seq::<char>::empty(),
    {
        Config { server: ServerConfig::default(), log: LogConfig::default() }
    }
}

} // verus!
