//! Options of the static file server that serves the overlay pages.

use vstd::prelude::*;

use crate::text::to_owned_string;

verus! {

/// Where the file server listens, what it serves, and its settings file.
pub struct Opt {
    /// Set the listen address
    pub addr: String,
    /// Set the port
    pub port: u16,
    /// set the static dir
    pub static_dir: String,
    /// define config path
    pub config: String,
}

impl Default for Opt {
    /// The options when none are given on the command line.
    fn default() -> (o: Self)
        ensures
            o.addr@ == "localhost"@,
            o.port == 8080,
            o.static_dir@ == "./dist"@,
            o.config@ == "./config.toml"@,
    {
        Opt {
            addr: to_owned_string("localhost"),
            port: 8080,
            static_dir: to_owned_string("./dist"),
            config: to_owned_string("./config.toml"),
        }
    }
}

} // verus!
