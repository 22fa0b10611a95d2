//! Where the configuration is looked for.

use vstd::prelude::*;

verus! {

/// Names the configuration file of the service.
pub struct ConfigLoader;

impl ConfigLoader {
    /// The path that is used when none is given.
    pub fn get_default_path() -> (path: String)
        ensures
            path@ == "config.toml"@,
    {
        "config.toml".to_string()
    }
}

} // verus!
