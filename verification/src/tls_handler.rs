//! Configuration holder for the TLS acceptor path: the caller builds the
//! actual certificate and acceptor around it.

use vstd::prelude::*;

use crate::config::RealityConfig;

verus! {

/// Wraps the Reality settings for building a TLS acceptor.
pub struct RealityTlsConfig {
    config: RealityConfig,
}

impl RealityTlsConfig {
    /// The wrapped settings.
    pub closed spec fn spec_config(&self) -> &RealityConfig {
        &self.config
    }

    /// Wraps the settings.
    pub fn new(config: RealityConfig) -> (r: Self)
        ensures
            *r.spec_config() == config,
    {
        RealityTlsConfig { config }
    }

    /// Hands the settings back.
    pub fn into_config(self) -> (r: RealityConfig)
        ensures
            r == *self.spec_config(),
    {
        self.config
    }
}

} // verus!
