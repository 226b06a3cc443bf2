//! Connection records: what the per-worker registry holds for listeners and
//! read-write connections, the per-connection context handed to callbacks,
//! and the plain handle given to foreign threads.

use vstd::prelude::*;

use crate::errors::Error;

verus! {

/// An operating-system socket descriptor.
pub type Handle = i32;

/// Per-connection state handed to the application callbacks.
#[derive(Debug)]
pub struct ConnectionContext {
    /// Scratch space the application may use across callbacks.
    pub buffer: Vec<u8>,
    /// Set for the zero-length read that reports an asynchronous completion.
    pub is_async_complete: bool,
}

impl ConnectionContext {
    /// A fresh context: empty buffer, no completion flagged.
    pub fn new() -> (r: Self)
        ensures
            r.buffer@.len() == 0,
            !r.is_async_complete,
    {
        Self { buffer: Vec::new(), is_async_complete: false }
    }

    /// The application's scratch buffer.
    pub fn get_buffer(&mut self) -> (r: &mut Vec<u8>)
        ensures
            *r == old(self).buffer,
            final(self).buffer == *final(r),
            final(self).is_async_complete == old(self).is_async_complete,
    {
        &mut self.buffer
    }
}

/// The redundant per-handle entry: the connection id and a flag byte, kept
/// for constant-time lookup from low-level event paths.
#[derive(Debug, Clone, Copy, PartialEq, Eq, Structural)]
pub struct HandleInfo {
    /// The 128-bit connection identifier.
    pub connection_id: u128,
    /// Flag bits; currently always zero.
    pub flags: u8,
}

/// The serialized form of a `HandleInfo`: the identifier's sixteen bytes,
/// most significant first, then the flag byte.
pub open spec fn spec_info_to_bytes(id: u128, flags: u8) -> Seq<u8> {
    seq![
        ((id >> 120) & 0xff) as u8,
        ((id >> 112) & 0xff) as u8,
        ((id >> 104) & 0xff) as u8,
        ((id >> 96) & 0xff) as u8,
        ((id >> 88) & 0xff) as u8,
        ((id >> 80) & 0xff) as u8,
        ((id >> 72) & 0xff) as u8,
        ((id >> 64) & 0xff) as u8,
        ((id >> 56) & 0xff) as u8,
        ((id >> 48) & 0xff) as u8,
        ((id >> 40) & 0xff) as u8,
        ((id >> 32) & 0xff) as u8,
        ((id >> 24) & 0xff) as u8,
        ((id >> 16) & 0xff) as u8,
        ((id >> 8) & 0xff) as u8,
        (id & 0xff) as u8,
        flags,
    ]
}

/// The identifier read back from the first sixteen bytes, most significant
/// first.
pub open spec fn spec_id_from_bytes(b: Seq<u8>) -> u128
    recommends
        b.len() >= 16,
{
    ((b[0] as u128) << 120) | ((b[1] as u128) << 112) | ((b[2] as u128) << 104) | ((b[3] as u128)
        << 96) | ((b[4] as u128) << 88) | ((b[5] as u128) << 80) | ((b[6] as u128) << 72) | ((
    b[7] as u128) << 64) | ((b[8] as u128) << 56) | ((b[9] as u128) << 48) | ((b[10] as u128) << 40)
        | ((b[11] as u128) << 32) | ((b[12] as u128) << 24) | ((b[13] as u128) << 16) | ((
    b[14] as u128) << 8) | (b[15] as u128)
}

impl HandleInfo {
    /// Pair an identifier with its flag byte.
    pub fn new(connection_id: u128, flags: u8) -> (r: Self)
        ensures
            r.connection_id == connection_id,
            r.flags == flags,
    {
        Self { connection_id, flags }
    }

    /// Serialize: sixteen identifier bytes, most significant first, then the
    /// flag byte.
    pub fn to_bytes(&self) -> (r: Vec<u8>)
        ensures
            r@ == spec_info_to_bytes(self.connection_id, self.flags),
            r@.len() == crate::HANDLE_INFO_SIZE,
    {
        let id = self.connection_id;
        let mut b: Vec<u8> = Vec::new();
        b.push(((id >> 120) & 0xff) as u8);
        b.push(((id >> 112) & 0xff) as u8);
        b.push(((id >> 104) & 0xff) as u8);
        b.push(((id >> 96) & 0xff) as u8);
        b.push(((id >> 88) & 0xff) as u8);
        b.push(((id >> 80) & 0xff) as u8);
        b.push(((id >> 72) & 0xff) as u8);
        b.push(((id >> 64) & 0xff) as u8);
        b.push(((id >> 56) & 0xff) as u8);
        b.push(((id >> 48) & 0xff) as u8);
        b.push(((id >> 40) & 0xff) as u8);
        b.push(((id >> 32) & 0xff) as u8);
        b.push(((id >> 24) & 0xff) as u8);
        b.push(((id >> 16) & 0xff) as u8);
        b.push(((id >> 8) & 0xff) as u8);
        b.push((id & 0xff) as u8);
        b.push(self.flags);
        proof {
            assert(b@ =~= spec_info_to_bytes(self.connection_id, self.flags));
        }
        b
    }

    /// Deserialize. Fails only when the slice is not exactly
    /// `HANDLE_INFO_SIZE` bytes long.
    pub fn from_bytes(b: &[u8]) -> (r: Result<Self, Error>)
        ensures
            b@.len() == crate::HANDLE_INFO_SIZE ==> (r matches Ok(h) && h.connection_id
                == spec_id_from_bytes(b@) && h.flags == b@[16]),
            b@.len() != crate::HANDLE_INFO_SIZE ==> r == Result::<Self, Error>::Err(
                Error::InternalError,
            ),
    {
        if b.len() != crate::HANDLE_INFO_SIZE {
            Err(Error::InternalError)
        } else {
            let connection_id = ((b[0] as u128) << 120) | ((b[1] as u128) << 112) | ((b[2] as u128)
                << 104) | ((b[3] as u128) << 96) | ((b[4] as u128) << 88) | ((b[5] as u128) << 80)
                | ((b[6] as u128) << 72) | ((b[7] as u128) << 64) | ((b[8] as u128) << 56) | ((
            b[9] as u128) << 48) | ((b[10] as u128) << 40) | ((b[11] as u128) << 32) | ((
            b[12] as u128) << 24) | ((b[13] as u128) << 16) | ((b[14] as u128) << 8) | (
            b[15] as u128);
            let flags = b[16];
            Ok(Self { connection_id, flags })
        }
    }
}

/// Serializing a `HandleInfo` and reading it back yields the identifier and
/// flag byte unchanged.
pub proof fn lemma_handle_info_round_trip(id: u128, flags: u8)
    ensures
        spec_info_to_bytes(id, flags).len() == crate::HANDLE_INFO_SIZE,
        spec_id_from_bytes(spec_info_to_bytes(id, flags)) == id,
        spec_info_to_bytes(id, flags)[16] == flags,
{
    assert(((((id >> 120) & 0xff) as u8 as u128) << 120) | ((((id >> 112) & 0xff) as u8 as u128)
        << 112) | ((((id >> 104) & 0xff) as u8 as u128) << 104) | ((((id >> 96) & 0xff) as u8
        as u128) << 96) | ((((id >> 88) & 0xff) as u8 as u128) << 88) | ((((id >> 80)
        & 0xff) as u8 as u128) << 80) | ((((id >> 72) & 0xff) as u8 as u128) << 72) | ((((id >> 64)
        & 0xff) as u8 as u128) << 64) | ((((id >> 56) & 0xff) as u8 as u128) << 56) | ((((id >> 48)
        & 0xff) as u8 as u128) << 48) | ((((id >> 40) & 0xff) as u8 as u128) << 40) | ((((id >> 32)
        & 0xff) as u8 as u128) << 32) | ((((id >> 24) & 0xff) as u8 as u128) << 24) | ((((id >> 16)
        & 0xff) as u8 as u128) << 16) | ((((id >> 8) & 0xff) as u8 as u128) << 8) | ((id
        & 0xff) as u8 as u128) == id) by (bit_vector);
}

/// Whether a connection runs plain TCP or carries a TLS session, and on
/// which side. The session itself is owned by the shell, shared between the
/// owning worker and foreign threads.
#[derive(Debug, Clone, Copy, PartialEq, Eq, Structural)]
pub enum TlsKind {
    /// Plain TCP.
    Plain,
    /// Server-side TLS.
    Server,
    /// Client-side TLS.
    Client,
}

/// A read-write (accepted or client-added) connection.
#[derive(Debug)]
pub struct ReadWriteConnection {
    id: u128,
    handle: Handle,
    accept_handle: Option<Handle>,
    tls_kind: TlsKind,
    buffer: Vec<u8>,
}

impl ReadWriteConnection {
    /// Build a record for a connection on `handle`, produced by
    /// `accept_handle` (or none for a client-added one).
    pub fn new(id: u128, handle: Handle, accept_handle: Option<Handle>, tls_kind: TlsKind) -> (r:
        Self)
        ensures
            r.get_connection_id() == id,
            r.get_handle() == handle,
            r.get_accept_handle() == accept_handle,
            r.kind() == tls_kind,
    {
        Self { id, handle, accept_handle, tls_kind, buffer: Vec::new() }
    }

    /// The connection identifier.
    pub closed spec fn spec_connection_id(&self) -> u128 {
        self.id
    }

    /// The socket handle.
    pub closed spec fn spec_handle(&self) -> Handle {
        self.handle
    }

    /// The listener that produced this connection, if any.
    pub closed spec fn spec_accept_handle(&self) -> Option<Handle> {
        self.accept_handle
    }

    /// Plain, TLS server, or TLS client.
    pub closed spec fn kind(&self) -> TlsKind {
        self.tls_kind
    }

    /// The connection's scratch buffer contents.
    pub closed spec fn spec_buffer(&self) -> Seq<u8> {
        self.buffer@
    }

    /// The connection identifier.
    #[verifier::when_used_as_spec(spec_connection_id)]
    pub fn get_connection_id(&self) -> (r: u128)
        ensures
            r == self.spec_connection_id(),
    {
        self.id
    }

    /// The socket handle.
    #[verifier::when_used_as_spec(spec_handle)]
    pub fn get_handle(&self) -> (r: Handle)
        ensures
            r == self.spec_handle(),
    {
        self.handle
    }

    /// The listener that produced this connection, if any.
    #[verifier::when_used_as_spec(spec_accept_handle)]
    pub fn get_accept_handle(&self) -> (r: Option<Handle>)
        ensures
            r == self.spec_accept_handle(),
    {
        self.accept_handle
    }

    /// Plain, TLS server, or TLS client.
    pub fn get_kind(&self) -> (r: TlsKind)
        ensures
            r == self.kind(),
    {
        self.tls_kind
    }

    /// The connection's scratch buffer.
    pub fn get_buffer(&mut self) -> (r: &mut Vec<u8>)
        ensures
            r@ == old(self).spec_buffer(),
            final(self).spec_buffer() == final(r)@,
            final(self).spec_connection_id() == old(self).spec_connection_id(),
            final(self).spec_handle() == old(self).spec_handle(),
            final(self).spec_accept_handle() == old(self).spec_accept_handle(),
            final(self).kind() == old(self).kind(),
    {
        &mut self.buffer
    }
}

/// A listener: one pre-sharded handle per worker, and the TLS server
/// configuration if the port terminates TLS.
pub struct ListenerConnection {
    id: u128,
    handles: Vec<Handle>,
    tls_server_config: Option<rustls::ServerConfig>,
}

impl ListenerConnection {
    /// The listener's identifier.
    pub closed spec fn spec_connection_id(&self) -> u128 {
        self.id
    }

    /// One handle per worker.
    pub closed spec fn spec_handles(&self) -> Seq<Handle> {
        self.handles@
    }

    /// Whether the listener terminates TLS.
    pub closed spec fn has_tls_config(&self) -> bool {
        self.tls_server_config is Some
    }

    /// How many workers the listener was sharded for.
    pub fn handle_count(&self) -> (r: usize)
        ensures
            r == self.spec_handles().len(),
    {
        self.handles.len()
    }

    /// The worker's own listener handle.
    pub fn handle_for(&self, tid: usize) -> (r: Handle)
        requires
            tid < self.spec_handles().len(),
        ensures
            r == self.spec_handles()[tid as int],
    {
        self.handles[tid]
    }

    /// The TLS server configuration, if any.
    pub fn tls_config(&self) -> (r: &Option<rustls::ServerConfig>)
        ensures
            r is Some <==> self.has_tls_config(),
    {
        &self.tls_server_config
    }
}

/// A registry record: a listener or a read-write connection.
pub enum EventConnectionInfo {
    /// A listener record.
    ListenerConnection(ListenerConnection),
    /// A read-write record.
    ReadWriteConnection(ReadWriteConnection),
}

impl EventConnectionInfo {
    /// A read-write record under the given identifier.
    pub fn read_write_connection(
        id: u128,
        handle: Handle,
        accept_handle: Option<Handle>,
        tls_kind: TlsKind,
    ) -> (r: Self)
        ensures
            r matches EventConnectionInfo::ReadWriteConnection(c) && c.get_connection_id() == id
                && c.get_handle() == handle && c.get_accept_handle() == accept_handle && c.kind()
                == tls_kind,
    {
        EventConnectionInfo::ReadWriteConnection(
            ReadWriteConnection::new(id, handle, accept_handle, tls_kind),
        )
    }

    /// A listener record under the given identifier.
    pub fn listener_connection(
        id: u128,
        handles: Vec<Handle>,
        tls_server_config: Option<rustls::ServerConfig>,
    ) -> (r: Self)
        ensures
            r matches EventConnectionInfo::ListenerConnection(c) && c.spec_connection_id() == id
                && c.spec_handles() == handles@,
    {
        EventConnectionInfo::ListenerConnection(
            ListenerConnection { id, handles, tls_server_config },
        )
    }

    /// The record's identifier.
    pub open spec fn spec_connection_id(&self) -> u128 {
        match self {
            EventConnectionInfo::ListenerConnection(c) => c.spec_connection_id(),
            EventConnectionInfo::ReadWriteConnection(c) => c.spec_connection_id(),
        }
    }

    /// The record's identifier.
    #[verifier::when_used_as_spec(spec_connection_id)]
    pub fn get_connection_id(&self) -> (r: u128)
        ensures
            r == self.spec_connection_id(),
    {
        match self {
            EventConnectionInfo::ListenerConnection(c) => c.id,
            EventConnectionInfo::ReadWriteConnection(c) => c.get_connection_id(),
        }
    }

    /// The record's handle: a listener's handle for this worker, or the
    /// connection's own.
    pub fn get_handle(&self, tid: usize) -> (r: Handle)
        requires
            self matches EventConnectionInfo::ListenerConnection(c) ==> tid
                < c.spec_handles().len(),
        ensures
            match self {
                EventConnectionInfo::ListenerConnection(c) => r == c.spec_handles()[tid as int],
                EventConnectionInfo::ReadWriteConnection(c) => r == c.get_handle(),
            },
    {
        match self {
            EventConnectionInfo::ListenerConnection(c) => c.handles[tid],
            EventConnectionInfo::ReadWriteConnection(c) => c.get_handle(),
        }
    }

    /// The read-write record inside, or `WrongConnectionType` for a
    /// listener.
    pub fn get_read_write_connection_info(&self) -> (r: Result<&ReadWriteConnection, Error>)
        ensures
            match self {
                EventConnectionInfo::ReadWriteConnection(c) => r matches Ok(rc) && rc == c,
                EventConnectionInfo::ListenerConnection(_) => r == Result::<
                    &ReadWriteConnection,
                    Error,
                >::Err(Error::WrongConnectionType),
            },
    {
        match self {
            EventConnectionInfo::ReadWriteConnection(c) => Ok(c),
            EventConnectionInfo::ListenerConnection(_) => Err(Error::WrongConnectionType),
        }
    }

    /// The read-write record inside, or `InvalidType` for a listener.
    pub fn as_read_write_connection(&self) -> (r: Result<&ReadWriteConnection, Error>)
        ensures
            match self {
                EventConnectionInfo::ReadWriteConnection(c) => r matches Ok(rc) && rc == c,
                EventConnectionInfo::ListenerConnection(_) => r == Result::<
                    &ReadWriteConnection,
                    Error,
                >::Err(Error::InvalidType),
            },
    {
        match self {
            EventConnectionInfo::ReadWriteConnection(c) => Ok(c),
            EventConnectionInfo::ListenerConnection(_) => Err(Error::InvalidType),
        }
    }
}

/// The handle foreign threads hold on a connection: plain values only; the
/// shared write status, inbox and wakeup state live with the shell, which
/// routes `write`, `close` and `async_complete` through
/// [`crate::write_status::WriteStatus`].
#[derive(Debug)]
pub struct ConnectionData {
    id: u128,
    handle: Handle,
    accept_handle: Option<Handle>,
    tid: usize,
    buffer: Vec<u8>,
}

impl ConnectionData {
    /// Capture the plain identity of a connection for a foreign thread.
    pub fn new(connection_info: &ReadWriteConnection, tid: usize) -> (r: Self)
        ensures
            r.get_connection_id() == connection_info.get_connection_id(),
            r.get_handle() == connection_info.get_handle(),
            r.get_accept_handle() == connection_info.get_accept_handle(),
            r.tid() == tid,
    {
        Self {
            id: connection_info.get_connection_id(),
            handle: connection_info.get_handle(),
            accept_handle: connection_info.get_accept_handle(),
            tid,
            buffer: Vec::new(),
        }
    }

    /// The owning worker's index.
    pub closed spec fn spec_tid(&self) -> usize {
        self.tid
    }

    /// The owning worker's index.
    #[verifier::when_used_as_spec(spec_tid)]
    pub fn tid(&self) -> (r: usize)
        ensures
            r == self.spec_tid(),
    {
        self.tid
    }

    /// The connection identifier.
    pub closed spec fn spec_connection_id(&self) -> u128 {
        self.id
    }

    /// The connection identifier.
    #[verifier::when_used_as_spec(spec_connection_id)]
    pub fn get_connection_id(&self) -> (r: u128)
        ensures
            r == self.spec_connection_id(),
    {
        self.id
    }

    /// The socket handle.
    pub closed spec fn spec_handle(&self) -> Handle {
        self.handle
    }

    /// The socket handle.
    #[verifier::when_used_as_spec(spec_handle)]
    pub fn get_handle(&self) -> (r: Handle)
        ensures
            r == self.spec_handle(),
    {
        self.handle
    }

    /// The listener the connection came from, if any.
    pub closed spec fn spec_accept_handle(&self) -> Option<Handle> {
        self.accept_handle
    }

    /// The listener the connection came from, if any.
    #[verifier::when_used_as_spec(spec_accept_handle)]
    pub fn get_accept_handle(&self) -> (r: Option<Handle>)
        ensures
            r == self.spec_accept_handle(),
    {
        self.accept_handle
    }

    /// This handle's scratch buffer contents.
    pub closed spec fn spec_buffer(&self) -> Seq<u8> {
        self.buffer@
    }

    /// A scratch buffer belonging to this foreign-thread handle.
    pub fn get_buffer(&mut self) -> (r: &mut Vec<u8>)
        ensures
            r@ == old(self).spec_buffer(),
            final(self).spec_buffer() == final(r)@,
            final(self).spec_connection_id() == old(self).spec_connection_id(),
            final(self).spec_handle() == old(self).spec_handle(),
            final(self).spec_accept_handle() == old(self).spec_accept_handle(),
            final(self).spec_tid() == old(self).spec_tid(),
    {
        &mut self.buffer
    }
}

} // verus!
