//! Server configuration: where to listen and where the backing store
//! lives. Reading a configuration file is a collaborator's job; the
//! library only defines the shape and the defaults.

use vstd::prelude::*;

verus! {

/// The server's whole configuration; missing parts fall back to the
/// defaults below.
pub struct ServerConfig {
    pub server: Option<Server>,
    pub redis: Option<RedisConfig>,
}

/// Where the server listens.
pub struct Server {
    pub host: String,
    pub port: String,
}

impl Default for Server {
    /// A local listener.
    fn default() -> (r: Server)
        ensures
            r.host@ == "127.0.0.1"@,
            r.port@ == "6969"@,
    {
        Server { host: String::from_str("127.0.0.1"), port: String::from_str("6969") }
    }
}

/// How to reach the backing store.
pub struct RedisConfig {
    pub username: Option<String>,
    pub host: String,
    pub port: u16,
    pub password: Option<String>,
}

impl Default for RedisConfig {
    /// A store running locally, with no credentials.
    fn default() -> (r: RedisConfig)
        ensures
            r.username is None,
            r.host@ == "127.0.0.1"@,
            r.port == 6379,
            r.password is None,
    {
        RedisConfig {
            username: None,
            host: String::from_str("127.0.0.1"),
            port: 6379,
            password: None,
        }
    }
}

} // verus!
