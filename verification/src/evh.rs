//! Handler-level decisions: callback checks, listener validation, client
//! admission, record construction, TLS endpoint assembly, and each worker's
//! inbox.

use vstd::prelude::*;

use crate::config::EventHandlerConfig;
use crate::connection::EventConnectionInfo;
use crate::connection::Handle;
use crate::connection::TlsKind;
use crate::errors::Error;
use crate::rng::random_u128;
use crate::tls::certs_of;
use crate::tls::certs_parse_ok;
use crate::tls::client_session;
use crate::tls::first_private_key;
use crate::tls::load_private_key;
use crate::tls::make_client_config;
use crate::tls::make_server_config;
use crate::tls::pem_certs;
use crate::tls::pem_items_of;
use crate::tls::pem_parse_ok;
use crate::tls::root_accepted;
use crate::tls::root_store_add;
use crate::tls::root_store_new;
use crate::tls::server_config_accepts;
use crate::tls::server_name_ok;

verus! {

/// A worker's inbox, filled by foreign threads and drained by the worker at
/// the top of each loop. The shell keeps it behind a lock.
pub struct GuardedData {
    write_queue: Vec<u128>,
    nhandles: Vec<EventConnectionInfo>,
    stop: bool,
}

impl GuardedData {
    /// Identifiers with queued writes.
    pub closed spec fn spec_write_queue(&self) -> Seq<u128> {
        self.write_queue@
    }

    /// Records awaiting registration.
    pub closed spec fn spec_nhandles(&self) -> Seq<EventConnectionInfo> {
        self.nhandles@
    }

    /// The stop order.
    pub closed spec fn spec_stop(&self) -> bool {
        self.stop
    }

    /// An empty inbox.
    pub fn new() -> (r: Self)
        ensures
            r.spec_write_queue().len() == 0,
            r.spec_nhandles().len() == 0,
            !r.spec_stop(),
    {
        Self { write_queue: Vec::new(), nhandles: Vec::new(), stop: false }
    }

    /// A foreign thread queued a write for the identifier.
    pub fn push_write(&mut self, id: u128)
        ensures
            final(self).spec_write_queue() == old(self).spec_write_queue().push(id),
            final(self).spec_nhandles() == old(self).spec_nhandles(),
            final(self).spec_stop() == old(self).spec_stop(),
    {
        self.write_queue.push(id);
    }

    /// A new record awaits registration.
    pub fn push_record(&mut self, rec: EventConnectionInfo)
        ensures
            final(self).spec_nhandles() == old(self).spec_nhandles().push(rec),
            final(self).spec_write_queue() == old(self).spec_write_queue(),
            final(self).spec_stop() == old(self).spec_stop(),
    {
        self.nhandles.push(rec);
    }

    /// Order the worker to stop.
    pub fn set_stop(&mut self)
        ensures
            final(self).spec_stop(),
            final(self).spec_write_queue() == old(self).spec_write_queue(),
            final(self).spec_nhandles() == old(self).spec_nhandles(),
    {
        self.stop = true;
    }

    /// Drain the inbox: both queues empty out; the stop order stays.
    pub fn take(&mut self) -> (r: (Vec<EventConnectionInfo>, Vec<u128>, bool))
        ensures
            r.0@ == old(self).spec_nhandles(),
            r.1@ == old(self).spec_write_queue(),
            r.2 == old(self).spec_stop(),
            final(self).spec_nhandles().len() == 0,
            final(self).spec_write_queue().len() == 0,
            final(self).spec_stop() == old(self).spec_stop(),
    {
        let recs = self.nhandles.split_off(0);
        let writes = self.write_queue.split_off(0);
        proof {
            assert(recs@ =~= old(self).spec_nhandles());
            assert(writes@ =~= old(self).spec_write_queue());
            assert(self.nhandles@ =~= Seq::<EventConnectionInfo>::empty());
            assert(self.write_queue@ =~= Seq::<u128>::empty());
        }
        (recs, writes, self.stop)
    }
}

/// All five callbacks must be set before the handler starts or takes
/// listeners: missing any is a configuration error.
pub fn check_callbacks(
    has_on_read: bool,
    has_on_accept: bool,
    has_on_close: bool,
    has_on_panic: bool,
    has_on_housekeep: bool,
) -> (r: Result<(), Error>)
    ensures
        r is Ok <==> (has_on_read && has_on_accept && has_on_close && has_on_panic
            && has_on_housekeep),
        r is Err ==> r == Result::<(), Error>::Err(Error::EventHandlerConfigurationError),
{
    if !has_on_read {
        return Err(Error::EventHandlerConfigurationError);
    }
    if !has_on_accept {
        return Err(Error::EventHandlerConfigurationError);
    }
    if !has_on_close {
        return Err(Error::EventHandlerConfigurationError);
    }
    if !has_on_panic {
        return Err(Error::EventHandlerConfigurationError);
    }
    if !has_on_housekeep {
        return Err(Error::EventHandlerConfigurationError);
    }
    Ok(())
}

/// Listener handles are accepted when every numeric value is below the
/// configured bound (checked first) and there is exactly one handle per
/// worker.
pub fn validate_listener_handles(handles: &Vec<Handle>, config: &EventHandlerConfig) -> (r: Result<
    (),
    Error,
>)
    requires
        config.max_handle_numeric_value <= i32::MAX,
    ensures
        (exists|i: int|
            0 <= i < handles@.len() && #[trigger] handles@[i]
                >= config.max_handle_numeric_value) ==> r == Result::<(), Error>::Err(
            Error::MaxHandlesExceeded,
        ),
        (forall|i: int|
            0 <= i < handles@.len() ==> #[trigger] handles@[i]
                < config.max_handle_numeric_value) ==> {
            if handles@.len() != config.threads {
                r == Result::<(), Error>::Err(Error::EventHandlerConfigurationError)
            } else {
                r is Ok
            }
        },
{
    let bound = config.max_handle_numeric_value as i32;
    let mut i: usize = 0;
    while i < handles.len()
        invariant
            0 <= i <= handles@.len(),
            bound == config.max_handle_numeric_value as i32,
            config.max_handle_numeric_value <= i32::MAX,
            forall|j: int| 0 <= j < i ==> #[trigger] handles@[j] < config.max_handle_numeric_value,
        decreases handles@.len() - i,
    {
        if handles[i] >= bound {
            return Err(Error::MaxHandlesExceeded);
        }
        i = i + 1;
    }
    if handles.len() != config.threads {
        return Err(Error::EventHandlerConfigurationError);
    }
    Ok(())
}

/// Admission of a client-added handle: the numeric bound first, then the
/// connection cap as one test-and-increment (the shell holds the lock over
/// the shared counter for this call).
pub fn add_handle_admit(handle: Handle, cur: &mut usize, config: &EventHandlerConfig) -> (r: Result<
    (),
    Error,
>)
    requires
        config.max_handle_numeric_value <= i32::MAX,
        *old(cur) < usize::MAX,
    ensures
        handle >= config.max_handle_numeric_value ==> r == Result::<(), Error>::Err(
            Error::MaxHandlesExceeded,
        ) && *final(cur) == *old(cur),
        handle < config.max_handle_numeric_value && *old(cur) >= config.max_rwhandles ==> r
            == Result::<(), Error>::Err(Error::MaxHandlesExceeded) && *final(cur) == *old(cur),
        handle < config.max_handle_numeric_value && *old(cur) < config.max_rwhandles ==> r is Ok
            && *final(cur) == *old(cur) + 1,
{
    if handle >= config.max_handle_numeric_value as i32 {
        return Err(Error::MaxHandlesExceeded);
    }
    if *cur >= config.max_rwhandles {
        return Err(Error::MaxHandlesExceeded);
    }
    *cur = *cur + 1;
    Ok(())
}

/// Which worker serves a client-added handle: the caller's choice, or one
/// drawn from the given random value.
pub fn pick_tid(tid: Option<usize>, random: usize, threads: usize) -> (r: usize)
    requires
        threads > 0,
    ensures
        r == match tid {
            Some(t) => t,
            None => random % threads,
        },
        tid is None ==> r < threads,
{
    match tid {
        Some(t) => t,
        None => random % threads,
    }
}

/// A listener record over the pre-sharded handles, under a fresh random
/// identifier.
pub fn make_listener_record(
    handles: Vec<Handle>,
    tls_server_config: Option<rustls::ServerConfig>,
) -> (r: EventConnectionInfo)
    ensures
        r matches EventConnectionInfo::ListenerConnection(c) && c.spec_handles() == handles@,
{
    let id = random_u128();
    EventConnectionInfo::listener_connection(id, handles, tls_server_config)
}

/// A client-added read-write record, under a fresh random identifier.
pub fn make_client_record(handle: Handle, tls: TlsKind) -> (r: EventConnectionInfo)
    ensures
        r matches EventConnectionInfo::ReadWriteConnection(c) && c.get_handle() == handle
            && c.get_accept_handle() is None && c.kind() == tls,
{
    let id = random_u128();
    EventConnectionInfo::read_write_connection(id, handle, None, tls)
}

/// Assemble a TLS server configuration from PEM bytes: every certificate of
/// the chain, and the first usable private key. Succeeds exactly when both
/// files parse, a usable key is present, and rustls accepts the pair.
pub fn make_server_tls_config(certs_pem: &Vec<u8>, key_pem: &Vec<u8>) -> (r: Result<
    rustls::ServerConfig,
    Error,
>)
    ensures
        r is Ok <==> (certs_parse_ok(certs_pem@) && pem_parse_ok(key_pem@) && (first_private_key(
            pem_items_of(key_pem@),
        ) matches Some(k) && server_config_accepts(certs_of(certs_pem@), k))),
        r is Err ==> (r matches Err(e) && e == Error::TLSError),
{
    let certs = match pem_certs(certs_pem.as_slice()) {
        Ok(c) => c,
        Err(e) => {
            return Err(e);
        },
    };
    let key = match load_private_key(key_pem.as_slice()) {
        Ok(k) => k,
        Err(e) => {
            return Err(e);
        },
    };
    match make_server_config(certs, key) {
        Ok(cfg) => Ok(cfg),
        Err(e) => Err(e),
    }
}

/// The optional extra trust chain parses and every certificate in it is
/// accepted as a trust anchor.
pub open spec fn client_roots_ok(roots_pem: Option<Vec<u8>>) -> bool {
    match roots_pem {
        Some(p) => certs_parse_ok(p@) && (forall|i: int|
            0 <= i < certs_of(p@).len() ==> root_accepted(#[trigger] certs_of(p@)[i])),
        None => true,
    }
}

/// Assemble a TLS client session: an optional extra trust chain from PEM
/// bytes, safe configuration defaults, and a session that verifies the peer
/// as `server_name`. The chain must parse and every root must be accepted;
/// a session is built only for a valid server name.
pub fn make_client_session(server_name: &str, roots_pem: &Option<Vec<u8>>) -> (r: Result<
    rustls::Connection,
    Error,
>)
    ensures
        (roots_pem matches Some(p) && !certs_parse_ok(p@)) ==> (r matches Err(e) && e
            == Error::TLSError),
        (roots_pem matches Some(p) && certs_parse_ok(p@) && (exists|i: int|
            0 <= i < certs_of(p@).len() && !root_accepted(#[trigger] certs_of(p@)[i]))) ==> (
        r matches Err(e) && e == Error::SetupError),
        (client_roots_ok(*roots_pem) && !server_name_ok(server_name@)) ==> r is Err,
        r is Ok ==> (client_roots_ok(*roots_pem) && server_name_ok(server_name@)),
        r is Err ==> (r matches Err(e) && (e == Error::TLSError || e == Error::SetupError)),
{
    let mut store = root_store_new();
    match roots_pem {
        Some(pem) => {
            let certs = match pem_certs(pem.as_slice()) {
                Ok(c) => c,
                Err(e) => {
                    return Err(e);
                },
            };
            let mut i: usize = 0;
            while i < certs.len()
                invariant
                    0 <= i <= certs@.len(),
                    certs.deep_view() == certs_of(pem@),
                    certs_parse_ok(pem@),
                    roots_pem matches Some(p) && p@ == pem@,
                    forall|j: int| 0 <= j < i ==> root_accepted(#[trigger] certs_of(pem@)[j]),
                decreases certs@.len() - i,
            {
                proof {
                    assert(certs.deep_view()[i as int] == certs@[i as int]@);
                }
                match root_store_add(&mut store, &certs[i]) {
                    Ok(()) => {},
                    Err(e) => {
                        return Err(e);
                    },
                }
                i = i + 1;
            }
        },
        None => {},
    }
    let cfg = match make_client_config(store) {
        Ok(c) => c,
        Err(e) => {
            return Err(e);
        },
    };
    client_session(&cfg, server_name)
}

} // verus!
