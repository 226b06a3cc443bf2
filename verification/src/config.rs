//! Configuration of the event handler and of TLS endpoints.

use vstd::prelude::*;

verus! {

/// Tunables of the event handler.
#[derive(Clone, Copy, Debug)]
pub struct EventHandlerConfig {
    /// Number of worker threads; also the number of listener handles expected.
    pub threads: usize,
    /// Size of each worker's scratch read buffer, in bytes.
    pub read_buffer_size: usize,
    /// Hard cap on concurrent read-write connections.
    pub max_rwhandles: usize,
    /// A handle whose numeric value reaches this bound is rejected.
    pub max_handle_numeric_value: usize,
    /// Selector timeout and housekeeping interval, in milliseconds.
    pub housekeeper_frequency: isize,
}

impl Default for EventHandlerConfig {
    /// The stock configuration: six workers, 10 KiB read buffers, 16,000
    /// connections, handles below 16,100, housekeeping every second.
    fn default() -> (r: Self)
        ensures
            r.threads == 6,
            r.read_buffer_size == 10240,
            r.max_rwhandles == 16000,
            r.max_handle_numeric_value == 16100,
            r.housekeeper_frequency == 1000,
    {
        Self {
            threads: 6,
            read_buffer_size: 10 * 1024,
            max_rwhandles: 16_000,
            max_handle_numeric_value: 16_100,
            housekeeper_frequency: 1_000,
        }
    }
}

/// Where a TLS server finds its key material.
#[derive(Clone, Debug)]
pub struct TLSServerConfig {
    /// The location of the private key file (privkey.pem).
    pub private_key_file: String,
    /// The location of the certificates file (fullchain.pem).
    pub certificates_file: String,
}

/// How a TLS client identifies and verifies its peer.
pub struct TLSClientConfig {
    /// The server name presented for SNI and certificate checks.
    pub server_name: String,
    /// An additional trusted certificate chain file, if any.
    pub trusted_cert_full_chain_file: Option<String>,
}

} // verus!
