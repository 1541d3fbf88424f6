use vstd::prelude::*;

verus! {

/// Structure to store if SSL is required. The transport collaborator builds
/// its HTTP or HTTPS client from this value at the point of use; nothing ever
/// reads it implicitly from process-wide state.
#[derive(Clone, Copy, Debug, PartialEq, Eq, Structural)]
pub struct Config {
    pub enable_ssl: bool,
}

impl Config {
    /// A configuration for one download, from the protocol the URL named.
    pub fn new(enable_ssl: bool) -> (config: Config)
        ensures
            config.enable_ssl == enable_ssl,
    {
        Config { enable_ssl }
    }
}

} // verus!
