use vstd::prelude::*;

verus! {

/// Where the HTTP server listens.
#[derive(Debug)]
pub struct Config {
    pub host: String,
    pub port: u16,
}

/// Location of the configuration file under the user's configuration directory.
pub const CONFIG_FILE: &'static str = "mpv/script-opts/mpv-remote.json";

impl Config {
    /// Listen on every interface, port 5585.
    pub fn default() -> (r: Config)
        ensures
            r.host@ == "0.0.0.0"@,
            r.port == 5585,
    {
        Config { host: "0.0.0.0".to_owned(), port: 5585 }
    }
}

} // verus!
