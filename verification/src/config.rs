//! The desktop helper's configuration model: a default grant TTL.
//!
//! Reading and decoding the configuration file is the caller's business;
//! this holds the shape of the configuration and its defaults.

use vstd::prelude::*;

verus! {

/// Policy settings a deployment may override.
#[derive(Debug)]
pub struct ConfigPolicy {
    pub default_ttl_secs: u32,
}

/// The whole configuration.
#[derive(Debug)]
pub struct Config {
    pub policy: ConfigPolicy,
}

/// The grant TTL used when no configuration overrides it: five minutes.
pub fn default_ttl() -> (r: u32)
    ensures
        r == 300,
{
    300
}

impl Default for ConfigPolicy {
    fn default() -> (r: ConfigPolicy)
        ensures
            r.default_ttl_secs == 300,
    {
        ConfigPolicy { default_ttl_secs: 300 }
    }
}

impl Default for Config {
    fn default() -> (r: Config)
        ensures
            r.policy.default_ttl_secs == 300,
    {
        Config { policy: ConfigPolicy { default_ttl_secs: 300 } }
    }
}

} // verus!
