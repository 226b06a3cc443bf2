//! A placeholder client for onion routing, to be grown over the event
//! handler.

use vstd::prelude::*;

use crate::errors::Error;

verus! {

/// Configuration of the onion-routing client; no tunables yet.
pub struct TorClientConfig {
}

/// The onion-routing client.
pub struct TorClient {
}

impl TorClient {
    /// A client under the given configuration.
    pub fn new(_config: TorClientConfig) -> Self {
        Self {  }
    }

    /// Start the client. Succeeds unconditionally for now.
    pub fn start() -> (r: Result<(), Error>)
        ensures
            r is Ok,
    {
        Ok(())
    }
}

} // verus!
