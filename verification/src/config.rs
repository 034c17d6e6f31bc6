//! Names and defaults of the configuration.
use vstd::prelude::*;

verus! {

/// The name of the program (its config, state and cache directories).
pub const APP_NAME: &'static str = "SELFsonic";

/// The version of the Subsonic API that the client speaks.
pub const API_VERSION: &'static str = "1.16.1";

/// The client name sent to the server.
pub const CLIENT_NAME: &'static str = "SELFsonic";

/// Where the server is and who logs in.
#[derive(Debug)]
pub struct ServerConfig {
    /// The base URL, such as `http://127.0.0.1:4533`.
    pub url: String,
    pub username: String,
    pub password: String,
}

impl Clone for ServerConfig {
    fn clone(&self) -> (r: Self)
        ensures
            r == *self,
    {
        ServerConfig {
            url: self.url.clone(),
            username: self.username.clone(),
            password: self.password.clone(),
        }
    }
}

/// The seek step of `[` and `]` when the configuration names none, in seconds.
pub fn default_seek_step() -> (r: u64)
    ensures
        r == 10,
{
    10
}

} // verus!
