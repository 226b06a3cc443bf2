//! One worker's state and the decisions of its event loop: admitting and
//! registering connections, dispatching a batch of events (and resuming it
//! after a panic), saturation bookkeeping, interest changes for the
//! selector, the wait-timeout rule, housekeeping, and the close path.
//!
//! The selector, the sockets, the locks and the callbacks are the shell's;
//! every function here takes their results as plain values and says exactly
//! what it decides.

use vstd::prelude::*;

use crate::bits::FilterSet;
use crate::bits::bits_of;
use crate::bits::filter_get;
use crate::bits::filter_new;
use crate::bits::filter_set;
use crate::config::EventHandlerConfig;
use crate::connection::ConnectionContext;
use crate::connection::ConnectionData;
use crate::connection::EventConnectionInfo;
use crate::connection::Handle;
use crate::connection::ReadWriteConnection;
use crate::connection::TlsKind;
use crate::errors::Error;
use crate::events::Event;
use crate::events::EventSet;
use crate::events::EventType;
use crate::registry::Registry;
use crate::registry::rw_count;
use crate::rng::random_u128;
use crate::write_status::WriteStatus;

verus! {

broadcast use vstd::std_specs::hash::group_hash_axioms;

/// A socket is revisited after this many consecutive full reads in one
/// round, instead of being drained further.
pub const SATURATION_LIMIT: usize = 5;

/// How many of a sequence of pending records are read-write connections.
pub open spec fn pending_rw(s: Seq<EventConnectionInfo>) -> nat
    decreases s.len(),
{
    if s.len() == 0 {
        0nat
    } else {
        (match s[0] {
            EventConnectionInfo::ReadWriteConnection(_) => 1nat,
            EventConnectionInfo::ListenerConnection(_) => 0nat,
        }) + pending_rw(s.skip(1))
    }
}

/// Appending a record adds its contribution to the count.
proof fn lemma_pending_rw_push(s: Seq<EventConnectionInfo>, x: EventConnectionInfo)
    ensures
        pending_rw(s.push(x)) == pending_rw(s) + (match x {
            EventConnectionInfo::ReadWriteConnection(_) => 1nat,
            EventConnectionInfo::ListenerConnection(_) => 0nat,
        }),
    decreases s.len(),
{
    let one_more = (match x {
        EventConnectionInfo::ReadWriteConnection(_) => 1nat,
        EventConnectionInfo::ListenerConnection(_) => 0nat,
    });
    if s.len() == 0 {
        assert(s.push(x)[0] == x);
        assert(s.push(x).skip(1) =~= Seq::<EventConnectionInfo>::empty());
        assert(pending_rw(s.push(x).skip(1)) == 0);
        assert(pending_rw(s.push(x)) == one_more);
    } else {
        assert(s.push(x).skip(1) =~= s.skip(1).push(x));
        assert(s.push(x)[0] == s[0]);
        lemma_pending_rw_push(s.skip(1), x);
        assert(pending_rw(s.push(x)) == (match s[0] {
            EventConnectionInfo::ReadWriteConnection(_) => 1nat,
            EventConnectionInfo::ListenerConnection(_) => 0nat,
        }) + pending_rw(s.skip(1).push(x)));
        assert(pending_rw(s) == (match s[0] {
            EventConnectionInfo::ReadWriteConnection(_) => 1nat,
            EventConnectionInfo::ListenerConnection(_) => 0nat,
        }) + pending_rw(s.skip(1)));
    }
}

/// Whether a record can enter the registry: a fresh identifier, and a
/// handle (this worker's, for a listener) that is in range and not yet
/// registered.
pub open spec fn can_register(
    reg: Registry,
    max_handle: int,
    rec: EventConnectionInfo,
    tid: usize,
) -> bool {
    &&& !reg.ids().contains_key(rec.get_connection_id())
    &&& match rec {
        EventConnectionInfo::ReadWriteConnection(c) => {
            &&& 0 <= c.spec_handle() < max_handle
            &&& !reg.records().contains_key(c.spec_handle())
        },
        EventConnectionInfo::ListenerConnection(c) => {
            &&& tid < c.spec_handles().len()
            &&& 0 <= c.spec_handles()[tid as int] < max_handle
            &&& !reg.records().contains_key(c.spec_handles()[tid as int])
        },
    }
}

/// A record that cannot enter the registry still cannot once more
/// connections have been registered: identifiers and handles only
/// accumulate during a registration pass.
proof fn lemma_cannot_register_monotone(
    a: Registry,
    b: Registry,
    max_handle: int,
    rec: EventConnectionInfo,
    tid: usize,
)
    requires
        !can_register(a, max_handle, rec, tid),
        forall|id: u128| #[trigger] a.ids().contains_key(id) ==> b.ids().contains_key(id),
        forall|h: Handle| #[trigger] a.records().contains_key(h) ==> b.records().contains_key(h),
    ensures
        !can_register(b, max_handle, rec, tid),
{
}

/// What the admission check at accept time decided.
#[derive(Debug, Clone, Copy, PartialEq, Eq, Structural)]
pub enum AcceptDecision {
    /// The connection cap is reached: close the new handle, stop accepting.
    RejectCap,
    /// The handle's numeric value is too large: close it, stop accepting.
    RejectHandle,
    /// Admit the connection.
    Admit,
}

/// The close path's outcome.
pub enum CloseOutcome {
    /// The identifier was not live: nothing to do (a second close, or a
    /// race with an already-closed connection).
    NotFound,
    /// A listener record was removed; no callback fires for it.
    Listener {
        /// The listener's handle for this worker.
        handle: Handle,
    },
    /// A read-write connection was closed: fire the close callback once
    /// with this data, and close the OS handle when asked to.
    Closed {
        /// The connection's handle.
        handle: Handle,
        /// Whether the shell must close the OS handle.
        close_handle: bool,
        /// For the close callback.
        connection_data: ConnectionData,
        /// The connection's context, if one was stored.
        context: Option<ConnectionContext>,
    },
}

/// What the write-queue pass decided for one identifier.
pub enum NwriteOutcome {
    /// The connection is gone; nothing to do.
    Gone,
    /// The record is a listener; nothing to do.
    Listener,
    /// Re-arm write interest only.
    Rearm {
        /// The connection's handle.
        handle: Handle,
    },
    /// An asynchronous completion is due: deliver a zero-length read with
    /// the context's completion flag set, then re-arm write interest.
    AsyncRead {
        /// The connection's handle.
        handle: Handle,
        /// For the read callback.
        connection_data: ConnectionData,
    },
}

/// A selector interest operation the shell must perform.
#[derive(Debug, Clone, Copy, PartialEq, Eq, Structural)]
pub enum RegOp {
    /// The handle was not registered: add it.
    Add,
    /// The handle was already registered: modify it.
    Mod,
}

/// What interest to register.
#[derive(Debug, Clone, Copy, PartialEq, Eq, Structural)]
pub enum InterestKind {
    /// Read plus hangup interest, edge-triggered.
    ReadInterest,
    /// Write plus read plus hangup interest, edge-triggered.
    WriteInterest,
}

/// One interest change for the selector.
#[derive(Debug, Clone, Copy, PartialEq, Eq, Structural)]
pub struct InterestChange {
    /// The socket.
    pub handle: Handle,
    /// What interest to set.
    pub kind: InterestKind,
    /// Add or modify.
    pub op: RegOp,
}

/// One worker's state.
pub struct Context {
    tid: usize,
    config: EventHandlerConfig,
    registry: Registry,
    add_pending: Vec<EventConnectionInfo>,
    accepted_connections: Vec<(ReadWriteConnection, ConnectionContext)>,
    nwrites: Vec<u128>,
    input_events: EventSet,
    filter_set: FilterSet,
    saturating_handles: Vec<Handle>,
    wakeup_read_handle: Handle,
    housekeeper_last: u128,
    counter: usize,
    buffer: Vec<u8>,
    admitted: Ghost<nat>,
}

impl Context {
    /// The registry, for contracts.
    pub closed spec fn reg(&self) -> Registry {
        self.registry
    }

    /// The configuration the worker runs under.
    pub closed spec fn spec_config(&self) -> EventHandlerConfig {
        self.config
    }

    /// Pending interest changes, for contracts.
    pub closed spec fn pending_interest(&self) -> Seq<Event> {
        self.input_events.view()
    }

    /// Handles marked saturating this round.
    pub closed spec fn saturating(&self) -> Seq<Handle> {
        self.saturating_handles@
    }

    /// The records delivered by the inbox and not yet registered.
    pub closed spec fn pending_records(&self) -> Seq<EventConnectionInfo> {
        self.add_pending@
    }

    /// The accepted connections (with their contexts) not yet registered.
    pub closed spec fn accepted_pairs(&self) -> Seq<(ReadWriteConnection, ConnectionContext)> {
        self.accepted_connections@
    }

    /// Records admitted but not yet in the registry.
    pub open spec fn pending_count(&self) -> nat {
        pending_rw(self.pending_records()) + self.accepted_pairs().len()
    }

    /// How many read-write admissions this worker has charged to the shared
    /// connection counter and not yet released by a close.
    pub closed spec fn admitted(&self) -> nat {
        self.admitted@
    }

    /// The worker's index.
    pub closed spec fn spec_tid(&self) -> usize {
        self.tid
    }

    /// The wakeup pipe's read end.
    pub closed spec fn spec_wakeup_handle(&self) -> Handle {
        self.wakeup_read_handle
    }

    /// The batch position, for panic recovery.
    pub closed spec fn spec_counter(&self) -> usize {
        self.counter
    }

    /// The scratch read buffer contents.
    pub closed spec fn spec_buffer(&self) -> Seq<u8> {
        self.buffer@
    }

    /// The write-queue identifiers taken from the inbox and not yet walked.
    pub closed spec fn spec_nwrites(&self) -> Seq<u128> {
        self.nwrites@
    }

    /// When the housekeeper last ran.
    pub closed spec fn spec_housekeeper_last(&self) -> u128 {
        self.housekeeper_last
    }

    /// The worker's structural invariant: a well-formed registry whose
    /// handles fit the filter bitset, and duplicate-free interest and
    /// saturation sets within bounds.
    pub open spec fn wf_core(&self) -> bool {
        &&& self.reg().wf()
        &&& bits_of(self.filter_view()).len() == self.spec_config().max_handle_numeric_value
        &&& self.saturating().no_duplicates()
        &&& self.input_events_wf()
        &&& forall|i: int|
            0 <= i < self.pending_interest().len() ==> 0 <= #[trigger] self.pending_interest()[i].handle
                < self.spec_config().max_handle_numeric_value
        &&& forall|i: int|
            0 <= i < self.pending_interest().len() ==> (#[trigger] self.pending_interest()[i]).etype
                != EventType::Error
        &&& forall|h: Handle| #[trigger]
            self.reg().records().contains_key(h) ==> 0 <= h
                < self.spec_config().max_handle_numeric_value
        &&& 0 <= self.spec_wakeup_handle() < self.spec_config().max_handle_numeric_value
        &&& self.spec_config().housekeeper_frequency >= 0
    }

    /// The worker's invariant: the structure above, and the connection
    /// accounting: the worker's charge on the shared counter equals its
    /// live read-write records plus those still pending insertion.
    pub open spec fn wf(&self) -> bool {
        &&& self.wf_core()
        &&& self.admitted() == rw_count(self.reg().records()) + self.pending_count()
    }

    /// The filter bitset, for contracts.
    pub closed spec fn filter_view(&self) -> FilterSet {
        self.filter_set
    }

    /// The interest set is duplicate-free.
    pub closed spec fn input_events_wf(&self) -> bool {
        self.input_events.wf()
    }

    /// A fresh worker: empty registry, all bits clear, read interest on the
    /// wakeup pipe's read end.
    pub fn new(tid: usize, config: EventHandlerConfig, wakeup_read_handle: Handle) -> (r: Self)
        requires
            0 <= wakeup_read_handle < config.max_handle_numeric_value,
            config.housekeeper_frequency >= 0,
        ensures
            r.wf(),
            r.spec_tid() == tid,
            r.spec_config() == config,
            r.spec_wakeup_handle() == wakeup_read_handle,
            r.admitted() == 0,
            rw_count(r.reg().records()) == 0,
            r.spec_counter() == 0,
            r.spec_buffer().len() == config.read_buffer_size,
            forall|i: int|
                0 <= i < bits_of(r.filter_view()).len() ==> !bits_of(r.filter_view())[i],
            r.pending_interest() == seq![
                Event { handle: wakeup_read_handle, etype: EventType::Read },
            ],
    {
        let mut input_events = EventSet::new();
        input_events.insert(Event { handle: wakeup_read_handle, etype: EventType::Read });
        let buffer = vec![0u8; config.read_buffer_size];
        let r = Self {
            tid,
            config,
            registry: Registry::new(),
            add_pending: Vec::new(),
            accepted_connections: Vec::new(),
            nwrites: Vec::new(),
            input_events,
            filter_set: filter_new(config.max_handle_numeric_value),
            saturating_handles: Vec::new(),
            wakeup_read_handle,
            housekeeper_last: 0,
            counter: 0,
            buffer,
            admitted: Ghost(0nat),
        };
        proof {
            assert(crate::registry::rw_handle_set(r.reg().records()) =~= Set::<Handle>::empty());
        }
        r
    }

    /// The worker's index.
    #[verifier::when_used_as_spec(spec_tid)]
    pub fn tid(&self) -> (r: usize)
        ensures
            r == self.spec_tid(),
    {
        self.tid
    }

    /// Whether the handle is the wakeup pipe's read end, whose bytes are
    /// pure signal: no read callback fires for them.
    pub fn is_wakeup_handle(&self, handle: Handle) -> (r: bool)
        ensures
            r == (handle == self.spec_wakeup_handle()),
    {
        handle == self.wakeup_read_handle
    }

    /// The record under a handle.
    pub fn lookup_record(&self, handle: Handle) -> (r: Option<&EventConnectionInfo>)
        ensures
            match r {
                Some(rec) => self.reg().records().contains_key(handle) && *rec
                    == self.reg().records()[handle],
                None => !self.reg().records().contains_key(handle),
            },
    {
        self.registry.get_record(handle)
    }

    /// The handle a live identifier maps to.
    pub fn handle_of_id(&self, id: u128) -> (r: Option<Handle>)
        ensures
            match r {
                Some(h) => self.reg().ids().contains_key(id) && self.reg().ids()[id] == h,
                None => !self.reg().ids().contains_key(id),
            },
    {
        self.registry.handle_of_id(id)
    }

    /// Take a live connection's callback context out, to hand to the
    /// application for one callback; put it back with `put_context`.
    pub fn take_context(&mut self, id: u128) -> (r: Option<ConnectionContext>)
        requires
            old(self).wf(),
        ensures
            final(self).wf(),
            final(self).reg().ids() == old(self).reg().ids(),
            final(self).reg().records() == old(self).reg().records(),
            final(self).reg().infos() == old(self).reg().infos(),
            final(self).reg().contexts() == old(self).reg().contexts().remove(id),
            r is Some <==> old(self).reg().contexts().contains_key(id),
            r matches Some(c) ==> c == old(self).reg().contexts()[id],
            final(self).pending_interest() == old(self).pending_interest(),
            final(self).saturating() == old(self).saturating(),
            final(self).admitted() == old(self).admitted(),
            final(self).pending_records() == old(self).pending_records(),
            final(self).accepted_pairs() == old(self).accepted_pairs(),
            final(self).spec_nwrites() == old(self).spec_nwrites(),
            final(self).spec_config() == old(self).spec_config(),
            final(self).spec_tid() == old(self).spec_tid(),
    {
        let r = self.registry.take_context(id);
        proof {
            assert forall|i: int|
                0 <= i < self.pending_interest().len() implies 0
                <= #[trigger] self.pending_interest()[i].handle
                < self.spec_config().max_handle_numeric_value by {
                assert(old(self).pending_interest()[i].handle
                    == self.pending_interest()[i].handle);
            }
            assert forall|i: int|
                0 <= i < self.pending_interest().len() implies (#[trigger] self.pending_interest()[i]).etype
                != EventType::Error by {
                assert(old(self).pending_interest()[i].etype == self.pending_interest()[i].etype);
            }
            assert forall|h2: Handle| #[trigger]
                self.reg().records().contains_key(h2) implies 0 <= h2
                < self.spec_config().max_handle_numeric_value by {
                assert(old(self).reg().records().contains_key(h2));
            }
        }
        r
    }

    /// Store a live connection's callback context back after a callback.
    pub fn put_context(&mut self, id: u128, ctx: ConnectionContext)
        requires
            old(self).wf(),
            old(self).reg().ids().contains_key(id),
        ensures
            final(self).wf(),
            final(self).reg().ids() == old(self).reg().ids(),
            final(self).reg().records() == old(self).reg().records(),
            final(self).reg().infos() == old(self).reg().infos(),
            final(self).reg().contexts() == old(self).reg().contexts().insert(id, ctx),
            final(self).pending_interest() == old(self).pending_interest(),
            final(self).saturating() == old(self).saturating(),
            final(self).admitted() == old(self).admitted(),
            final(self).pending_records() == old(self).pending_records(),
            final(self).accepted_pairs() == old(self).accepted_pairs(),
            final(self).spec_nwrites() == old(self).spec_nwrites(),
            final(self).spec_config() == old(self).spec_config(),
            final(self).spec_tid() == old(self).spec_tid(),
    {
        self.registry.insert_context(id, ctx);
        proof {
            assert forall|i: int|
                0 <= i < self.pending_interest().len() implies 0
                <= #[trigger] self.pending_interest()[i].handle
                < self.spec_config().max_handle_numeric_value by {
                assert(old(self).pending_interest()[i].handle
                    == self.pending_interest()[i].handle);
            }
            assert forall|i: int|
                0 <= i < self.pending_interest().len() implies (#[trigger] self.pending_interest()[i]).etype
                != EventType::Error by {
                assert(old(self).pending_interest()[i].etype == self.pending_interest()[i].etype);
            }
            assert forall|h2: Handle| #[trigger]
                self.reg().records().contains_key(h2) implies 0 <= h2
                < self.spec_config().max_handle_numeric_value by {
                assert(old(self).reg().records().contains_key(h2));
            }
        }
    }

    /// The scratch read buffer, for the shell to read into.
    pub fn read_buffer(&mut self) -> (r: &mut Vec<u8>)
        ensures
            r@ == old(self).spec_buffer(),
            final(self).spec_buffer() == final(r)@,
            unchanged_except_buffer(*old(self), *final(self)),
    {
        &mut self.buffer
    }

    /// Shrink the scratch buffer back after a large TLS record grew it.
    pub fn shrink_buffer(&mut self)
        ensures
            unchanged_except_buffer(*old(self), *final(self)),
            old(self).spec_buffer().len() > old(self).spec_config().read_buffer_size
                ==> final(self).spec_buffer().len() == old(self).spec_config().read_buffer_size,
            old(self).spec_buffer().len() <= old(self).spec_config().read_buffer_size
                ==> final(self).spec_buffer() == old(self).spec_buffer(),
    {
        if self.buffer.len() > self.config.read_buffer_size {
            self.buffer.resize(self.config.read_buffer_size, 0u8);
            proof {
                assert(self.buffer@ =~= old(self).spec_buffer().take(
                    old(self).spec_config().read_buffer_size as int,
                ));
            }
        }
    }
}

/// Everything but the scratch buffer is unchanged.
pub open spec fn unchanged_except_buffer(a: Context, b: Context) -> bool {
    &&& b.reg() == a.reg()
    &&& b.spec_config() == a.spec_config()
    &&& b.spec_tid() == a.spec_tid()
    &&& b.pending_interest() == a.pending_interest()
    &&& b.saturating() == a.saturating()
    &&& b.pending_records() == a.pending_records()
    &&& b.accepted_pairs() == a.accepted_pairs()
    &&& b.admitted() == a.admitted()
    &&& b.spec_wakeup_handle() == a.spec_wakeup_handle()
    &&& b.spec_counter() == a.spec_counter()
    &&& b.filter_view() == a.filter_view()
    &&& b.spec_nwrites() == a.spec_nwrites()
    &&& b.spec_housekeeper_last() == a.spec_housekeeper_last()
    &&& (a.wf() ==> b.wf())
}

/// Concatenation adds the read-write counts.
proof fn lemma_pending_rw_concat(a: Seq<EventConnectionInfo>, b: Seq<EventConnectionInfo>)
    ensures
        pending_rw(a + b) == pending_rw(a) + pending_rw(b),
    decreases a.len(),
{
    if a.len() == 0 {
        assert(a + b =~= b);
    } else {
        assert((a + b)[0] == a[0]);
        assert((a + b).skip(1) =~= a.skip(1) + b);
        lemma_pending_rw_concat(a.skip(1), b);
    }
}

/// Remove one occurrence of a handle from a duplicate-free vector.
#[verifier::loop_isolation(false)]
fn remove_handle(v: &mut Vec<Handle>, h: Handle)
    requires
        old(v)@.no_duplicates(),
    ensures
        final(v)@.no_duplicates(),
        !final(v)@.contains(h),
        final(v)@.to_set() == old(v)@.to_set().remove(h),
        forall|i: int| 0 <= i < final(v)@.len() ==> old(v)@.contains(#[trigger] final(v)@[i]),
{
    let mut i: usize = 0;
    while i < v.len()
        invariant
            0 <= i <= v@.len(),
            v@ == old(v)@,
            v@.no_duplicates(),
            forall|j: int| 0 <= j < i ==> v@[j] != h,
        decreases v@.len() - i,
    {
        if v[i] == h {
            let ghost before = v@;
            v.remove(i);
            proof {
                assert(v@ =~= before.subrange(0, i as int) + before.subrange(
                    i + 1,
                    before.len() as int,
                ));
                crate::events::lemma_seq_remove_once(before, i as int, h);
                assert forall|k: int| 0 <= k < v@.len() implies before.contains(
                    #[trigger] v@[k],
                ) by {
                    if k < i {
                        assert(v@[k] == before[k]);
                    } else {
                        assert(v@[k] == before[k + 1]);
                    }
                }
            }
            return ;
        }
        i = i + 1;
    }
    proof {
        assert(!old(v)@.contains(h));
        assert(old(v)@.to_set().remove(h) =~= old(v)@.to_set());
    }
}

impl Context {
    /// Ask for interest on a handle at the next wait (private: callers
    /// establish the bounds).
    fn push_interest(&mut self, handle: Handle, etype: EventType)
        requires
            old(self).wf(),
            0 <= handle < old(self).spec_config().max_handle_numeric_value,
            etype != EventType::Error,
        ensures
            final(self).wf(),
            final(self).pending_interest().to_set() == old(self).pending_interest().to_set().insert(
                Event { handle, etype },
            ),
            same_except_interest(*old(self), *final(self)),
    {
        self.input_events.insert(Event { handle, etype });
        proof {
            assert forall|i: int|
                0 <= i < self.pending_interest().len() implies 0
                <= #[trigger] self.pending_interest()[i].handle
                < self.spec_config().max_handle_numeric_value by {
                if i < old(self).pending_interest().len() {
                    assert(old(self).pending_interest()[i] == self.pending_interest()[i]);
                }
            }
            assert forall|i: int|
                0 <= i < self.pending_interest().len() implies (#[trigger] self.pending_interest()[i]).etype
                != EventType::Error by {
                if i < old(self).pending_interest().len() {
                    assert(old(self).pending_interest()[i] == self.pending_interest()[i]);
                }
            }
        }
    }

    /// Register the pending records: each goes into the three maps, gets a
    /// callback context if it has none, and asks for read (or accept)
    /// interest. A record that cannot enter comes back; for each read-write
    /// record among them the shell must release one admission charge.
    #[verifier::loop_isolation(false)]
    fn process_pending(&mut self) -> (r: Vec<EventConnectionInfo>)
        requires
            old(self).wf(),
        ensures
            final(self).wf(),
            final(self).pending_count() == 0,
            final(self).admitted() + pending_rw(r@) == old(self).admitted(),
            final(self).spec_nwrites() == old(self).spec_nwrites(),
            forall|id: u128| #[trigger]
                old(self).reg().ids().contains_key(id) ==> final(self).reg().ids().contains_key(
                    id,
                ),
            forall|i: int|
                0 <= i < old(self).pending_records().len() ==> (final(self).reg().ids().contains_key(
                    (#[trigger] old(self).pending_records()[i]).get_connection_id(),
                ) || r@.contains(old(self).pending_records()[i])),
            forall|i: int|
                0 <= i < old(self).accepted_pairs().len() ==> (final(self).reg().ids().contains_key(
                    (#[trigger] old(self).accepted_pairs()[i]).0.get_connection_id(),
                ) || r@.contains(
                    EventConnectionInfo::ReadWriteConnection(old(self).accepted_pairs()[i].0),
                )),
            forall|j: int|
                0 <= j < r@.len() ==> !can_register(
                    final(self).reg(),
                    final(self).spec_config().max_handle_numeric_value as int,
                    #[trigger] r@[j],
                    final(self).spec_tid(),
                ),
    {
        let mut rejected: Vec<EventConnectionInfo> = Vec::new();
        let ghost entry_ids = self.reg().ids();
        let ghost all0 = self.pending_records();
        let ghost acc_all = self.accepted_pairs();
        let ghost mut k: int = 0;
        while self.add_pending.len() > 0
            invariant
                self.wf(),
                0 <= k <= all0.len(),
                self.add_pending@ == all0.skip(k),
                self.admitted() + pending_rw(rejected@) == old(self).admitted(),
                self.accepted_connections@ == acc_all,
                self.spec_nwrites() == old(self).spec_nwrites(),
                self.spec_config() == old(self).spec_config(),
                self.spec_tid() == old(self).spec_tid(),
                forall|id: u128| #[trigger]
                    entry_ids.contains_key(id) ==> self.reg().ids().contains_key(id),
                forall|i: int|
                    0 <= i < k ==> (self.reg().ids().contains_key(
                        (#[trigger] all0[i]).get_connection_id(),
                    ) || rejected@.contains(all0[i])),
                forall|j: int|
                    0 <= j < rejected@.len() ==> !can_register(
                        self.reg(),
                        self.spec_config().max_handle_numeric_value as int,
                        #[trigger] rejected@[j],
                        self.spec_tid(),
                    ),
            decreases self.add_pending@.len(),
        {
            let ghost pend0 = self.add_pending@;
            let rec = self.add_pending.remove(0);
            proof {
                assert(self.add_pending@ =~= pend0.skip(1));
                assert(rec == all0[k]);
                assert(self.add_pending@ =~= all0.skip(k + 1));
            }
            let ghost pre = *self;
            let ghost pre_rej = rejected@;
            self.register_one(rec, &mut rejected);
            proof {
                k = k + 1;
                let max_h = self.spec_config().max_handle_numeric_value as int;
                assert forall|j: int|
                    0 <= j < rejected@.len() implies !can_register(
                    self.reg(),
                    max_h,
                    #[trigger] rejected@[j],
                    self.spec_tid(),
                ) by {
                    if j < pre_rej.len() {
                        assert(rejected@[j] == pre_rej[j]);
                        lemma_cannot_register_monotone(
                            pre.reg(),
                            self.reg(),
                            max_h,
                            pre_rej[j],
                            self.spec_tid(),
                        );
                    } else {
                        assert(rejected@ == pre_rej.push(rec));
                        assert(rejected@[j] == rec);
                        assert(!can_register(pre.reg(), max_h, rec, pre.spec_tid()));
                        lemma_cannot_register_monotone(
                            pre.reg(),
                            self.reg(),
                            max_h,
                            rec,
                            self.spec_tid(),
                        );
                    }
                }
                assert forall|i: int|
                    0 <= i < k implies (self.reg().ids().contains_key(
                    (#[trigger] all0[i]).get_connection_id(),
                ) || rejected@.contains(all0[i])) by {
                    if i < k - 1 {
                        if pre_rej.contains(all0[i]) {
                            let j = choose|j: int|
                                0 <= j < pre_rej.len() && pre_rej[j] == all0[i];
                            assert(rejected@[j] == all0[i]);
                        } else {
                            assert(pre.reg().ids().contains_key(all0[i].get_connection_id()));
                        }
                    } else {
                        if !can_register(
                            pre.reg(),
                            pre.spec_config().max_handle_numeric_value as int,
                            rec,
                            pre.spec_tid(),
                        ) {
                            assert(rejected@ == pre_rej.push(rec));
                            assert(rejected@[rejected@.len() - 1] == rec);
                        }
                    }
                }
            }
        }
        let ghost mut m: int = 0;
        while self.accepted_connections.len() > 0
            invariant
                self.wf(),
                0 <= m <= acc_all.len(),
                self.accepted_connections@ == acc_all.skip(m),
                pending_rw(self.add_pending@) == 0,
                self.admitted() + pending_rw(rejected@) == old(self).admitted(),
                self.spec_nwrites() == old(self).spec_nwrites(),
                self.spec_config() == old(self).spec_config(),
                self.spec_tid() == old(self).spec_tid(),
                forall|id: u128| #[trigger]
                    entry_ids.contains_key(id) ==> self.reg().ids().contains_key(id),
                forall|i: int|
                    0 <= i < all0.len() ==> (self.reg().ids().contains_key(
                        (#[trigger] all0[i]).get_connection_id(),
                    ) || rejected@.contains(all0[i])),
                forall|i: int|
                    0 <= i < m ==> (self.reg().ids().contains_key(
                        (#[trigger] acc_all[i]).0.get_connection_id(),
                    ) || rejected@.contains(
                        EventConnectionInfo::ReadWriteConnection(acc_all[i].0),
                    )),
                forall|j: int|
                    0 <= j < rejected@.len() ==> !can_register(
                        self.reg(),
                        self.spec_config().max_handle_numeric_value as int,
                        #[trigger] rejected@[j],
                        self.spec_tid(),
                    ),
            decreases self.accepted_connections@.len(),
        {
            let ghost acc0 = self.accepted_connections@;
            let (rw, ctx) = self.accepted_connections.remove(0);
            proof {
                assert(self.accepted_connections@ =~= acc0.skip(1));
                assert((rw, ctx) == acc_all[m]);
                assert(self.accepted_connections@ =~= acc_all.skip(m + 1));
            }
            let ghost pre = *self;
            let ghost pre_rej = rejected@;
            self.register_accepted(rw, ctx, &mut rejected);
            proof {
                m = m + 1;
                let max_h = self.spec_config().max_handle_numeric_value as int;
                assert forall|j: int|
                    0 <= j < rejected@.len() implies !can_register(
                    self.reg(),
                    max_h,
                    #[trigger] rejected@[j],
                    self.spec_tid(),
                ) by {
                    if j < pre_rej.len() {
                        assert(rejected@[j] == pre_rej[j]);
                        lemma_cannot_register_monotone(
                            pre.reg(),
                            self.reg(),
                            max_h,
                            pre_rej[j],
                            self.spec_tid(),
                        );
                    } else {
                        assert(rejected@ == pre_rej.push(
                            EventConnectionInfo::ReadWriteConnection(rw),
                        ));
                        assert(rejected@[j] == EventConnectionInfo::ReadWriteConnection(rw));
                        assert(!can_register(
                            pre.reg(),
                            max_h,
                            EventConnectionInfo::ReadWriteConnection(rw),
                            pre.spec_tid(),
                        ));
                        lemma_cannot_register_monotone(
                            pre.reg(),
                            self.reg(),
                            max_h,
                            EventConnectionInfo::ReadWriteConnection(rw),
                            self.spec_tid(),
                        );
                    }
                }
                assert forall|i: int|
                    0 <= i < all0.len() implies (self.reg().ids().contains_key(
                    (#[trigger] all0[i]).get_connection_id(),
                ) || rejected@.contains(all0[i])) by {
                    if pre_rej.contains(all0[i]) {
                        let j = choose|j: int| 0 <= j < pre_rej.len() && pre_rej[j] == all0[i];
                        assert(rejected@[j] == all0[i]);
                    } else {
                        assert(pre.reg().ids().contains_key(all0[i].get_connection_id()));
                    }
                }
                assert forall|i: int|
                    0 <= i < m implies (self.reg().ids().contains_key(
                    (#[trigger] acc_all[i]).0.get_connection_id(),
                ) || rejected@.contains(
                    EventConnectionInfo::ReadWriteConnection(acc_all[i].0),
                )) by {
                    if i < m - 1 {
                        if pre_rej.contains(EventConnectionInfo::ReadWriteConnection(acc_all[i].0)) {
                            let j = choose|j: int|
                                0 <= j < pre_rej.len() && pre_rej[j]
                                    == EventConnectionInfo::ReadWriteConnection(acc_all[i].0);
                            assert(rejected@[j] == EventConnectionInfo::ReadWriteConnection(
                                acc_all[i].0,
                            ));
                        } else {
                            assert(pre.reg().ids().contains_key(
                                acc_all[i].0.get_connection_id(),
                            ));
                        }
                    } else {
                        if !can_register(
                            pre.reg(),
                            pre.spec_config().max_handle_numeric_value as int,
                            EventConnectionInfo::ReadWriteConnection(rw),
                            pre.spec_tid(),
                        ) {
                            assert(rejected@ == pre_rej.push(
                                EventConnectionInfo::ReadWriteConnection(rw),
                            ));
                            assert(rejected@[rejected@.len() - 1]
                                == EventConnectionInfo::ReadWriteConnection(rw));
                        }
                    }
                }
            }
        }
        rejected
    }

    /// Register one delivered record, or hand it back.
    fn register_one(&mut self, rec: EventConnectionInfo, rejected: &mut Vec<EventConnectionInfo>)
        requires
            old(self).wf_core(),
            old(self).admitted() == rw_count(old(self).reg().records()) + old(
                self,
            ).pending_count() + (match rec {
                EventConnectionInfo::ReadWriteConnection(_) => 1nat,
                EventConnectionInfo::ListenerConnection(_) => 0nat,
            }),
        ensures
            final(self).wf(),
            final(self).admitted() + pending_rw(final(rejected)@) == old(self).admitted()
                + pending_rw(old(rejected)@),
            final(self).add_pending@ == old(self).add_pending@,
            final(self).accepted_pairs() == old(self).accepted_pairs(),
            final(self).spec_nwrites() == old(self).spec_nwrites(),
            final(self).spec_config() == old(self).spec_config(),
            final(self).spec_tid() == old(self).spec_tid(),
            forall|id: u128| #[trigger]
                old(self).reg().ids().contains_key(id) ==> final(self).reg().ids().contains_key(
                    id,
                ),
            forall|h: Handle| #[trigger]
                old(self).reg().records().contains_key(h) ==> final(self).reg().records().contains_key(h),
            can_register(
                old(self).reg(),
                old(self).spec_config().max_handle_numeric_value as int,
                rec,
                old(self).spec_tid(),
            ) ==> final(self).reg().ids().contains_key(rec.get_connection_id()) && final(rejected)@ == old(rejected)@,
            !can_register(
                old(self).reg(),
                old(self).spec_config().max_handle_numeric_value as int,
                rec,
                old(self).spec_tid(),
            ) ==> final(rejected)@ == old(rejected)@.push(rec),
    {
        let id = rec.get_connection_id();
        let is_rw = match &rec {
            EventConnectionInfo::ReadWriteConnection(_) => true,
            EventConnectionInfo::ListenerConnection(_) => false,
        };
        let handle_ok: Option<Handle> = match &rec {
            EventConnectionInfo::ReadWriteConnection(c) => Some(c.get_handle()),
            EventConnectionInfo::ListenerConnection(c) => {
                if self.tid < c.handle_count() {
                    Some(c.handle_for(self.tid))
                } else {
                    None
                }
            },
        };
        let handle = match handle_ok {
            Some(h) => h,
            None => {
                rejected.push(rec);
                proof {
                    lemma_pending_rw_push(old(rejected)@, final(rejected)@.last());
                }
                return ;
            },
        };
        let fresh = !self.registry.contains_id(id) && handle >= 0 && (handle as usize)
            < self.config.max_handle_numeric_value && (match self.registry.get_record(handle) {
            None => true,
            Some(_) => false,
        });
        if !fresh {
            if is_rw {
                proof {
                    self.admitted@ = (self.admitted@ - 1) as nat;
                }
            }
            rejected.push(rec);
            proof {
                lemma_pending_rw_push(old(rejected)@, final(rejected)@.last());
            }
            return ;
        }
        let etype = if is_rw {
            EventType::Read
        } else {
            EventType::Accept
        };
        self.registry.insert(rec, self.tid);
        proof {
            assert forall|h2: Handle| #[trigger]
                self.reg().records().contains_key(h2) implies 0 <= h2
                < self.spec_config().max_handle_numeric_value by {
                if h2 != handle {
                    assert(old(self).reg().records().contains_key(h2));
                }
            }
        }
        if is_rw {
            if !self.registry.has_context(id) {
                self.registry.insert_context(id, ConnectionContext::new());
            }
        }
        self.push_interest(handle, etype);
    }

    /// Register one accepted connection with its callback context, or hand
    /// the record back.
    fn register_accepted(
        &mut self,
        rw: ReadWriteConnection,
        ctx: ConnectionContext,
        rejected: &mut Vec<EventConnectionInfo>,
    )
        requires
            old(self).wf_core(),
            old(self).admitted() == rw_count(old(self).reg().records()) + old(
                self,
            ).pending_count() + 1,
        ensures
            final(self).wf(),
            final(self).admitted() + pending_rw(final(rejected)@) == old(self).admitted()
                + pending_rw(old(rejected)@),
            final(self).add_pending@ == old(self).add_pending@,
            final(self).accepted_pairs() == old(self).accepted_pairs(),
            final(self).spec_nwrites() == old(self).spec_nwrites(),
            final(self).spec_config() == old(self).spec_config(),
            final(self).spec_tid() == old(self).spec_tid(),
            forall|id: u128| #[trigger]
                old(self).reg().ids().contains_key(id) ==> final(self).reg().ids().contains_key(
                    id,
                ),
            forall|h: Handle| #[trigger]
                old(self).reg().records().contains_key(h) ==> final(self).reg().records().contains_key(h),
            can_register(
                old(self).reg(),
                old(self).spec_config().max_handle_numeric_value as int,
                EventConnectionInfo::ReadWriteConnection(rw),
                old(self).spec_tid(),
            ) ==> final(self).reg().ids().contains_key(rw.get_connection_id()) && final(rejected)@ == old(rejected)@,
            !can_register(
                old(self).reg(),
                old(self).spec_config().max_handle_numeric_value as int,
                EventConnectionInfo::ReadWriteConnection(rw),
                old(self).spec_tid(),
            ) ==> final(rejected)@ == old(rejected)@.push(
                EventConnectionInfo::ReadWriteConnection(rw),
            ),
    {
        let id = rw.get_connection_id();
        let handle = rw.get_handle();
        let fresh = !self.registry.contains_id(id) && handle >= 0 && (handle as usize)
            < self.config.max_handle_numeric_value && (match self.registry.get_record(handle) {
            None => true,
            Some(_) => false,
        });
        if !fresh {
            proof {
                self.admitted@ = (self.admitted@ - 1) as nat;
            }
            rejected.push(EventConnectionInfo::ReadWriteConnection(rw));
            proof {
                lemma_pending_rw_push(old(rejected)@, final(rejected)@.last());
            }
            return ;
        }
        self.registry.insert(EventConnectionInfo::ReadWriteConnection(rw), self.tid);
        proof {
            assert forall|h2: Handle| #[trigger]
                self.reg().records().contains_key(h2) implies 0 <= h2
                < self.spec_config().max_handle_numeric_value by {
                if h2 != handle {
                    assert(old(self).reg().records().contains_key(h2));
                }
            }
        }
        self.registry.insert_context(id, ctx);
        self.push_interest(handle, EventType::Read);
    }

    /// The write-queue identifiers for this round; the worker's own list
    /// empties.
    pub fn take_nwrites(&mut self) -> (r: Vec<u128>)
        ensures
            r@ == old(self).spec_nwrites(),
            final(self).spec_nwrites().len() == 0,
            same_except_nwrites(*old(self), *final(self)),
    {
        let r = self.nwrites.split_off(0);
        proof {
            assert(r@ =~= old(self).spec_nwrites());
            assert(self.nwrites@ =~= Seq::<u128>::empty());
        }
        r
    }

    /// One write-queue identifier: when the connection is live and its
    /// queue is empty, open and flagged complete, a zero-length read with
    /// the completion flag is due; in every live case write interest is
    /// re-armed. The completion flag is consumed.
    pub fn nwrite_step(&mut self, id: u128, status: &mut WriteStatus) -> (r: NwriteOutcome)
        requires
            old(self).wf(),
            old(status).wf(),
        ensures
            final(self).wf(),
            final(status).wf(),
            !old(self).reg().ids().contains_key(id) ==> (r is Gone && *final(status) == *old(
                status,
            )),
            final(status).is_closed() == old(status).is_closed(),
            final(status).is_pending() == old(status).is_pending(),
            final(status).buffered() == old(status).buffered(),
            final(status).submitted() == old(status).submitted(),
            final(status).sent() == old(status).sent(),
            final(status).close_oncomplete() == old(status).close_oncomplete(),
            !final(status).async_complete_pending() || final(status).async_complete_pending()
                == old(status).async_complete_pending(),
            old(self).reg().ids().contains_key(id) ==> ({
                let h = old(self).reg().ids()[id];
                match old(self).reg().records()[h] {
                    EventConnectionInfo::ReadWriteConnection(c) => {
                        if old(status).buffered().len() == 0 && !old(status).is_closed() && old(
                            status,
                        ).async_complete_pending() {
                            r matches NwriteOutcome::AsyncRead { handle, connection_data }
                                && handle == h && connection_data.get_connection_id() == id
                                && !final(status).async_complete_pending()
                        } else {
                            r matches NwriteOutcome::Rearm { handle } && handle == h
                        }
                    },
                    EventConnectionInfo::ListenerConnection(_) => r is Listener,
                }
            }),
            final(self).reg() == old(self).reg(),
            final(self).admitted() == old(self).admitted(),
            (old(self).reg().ids().contains_key(id) && (old(self).reg().records()[old(
                self,
            ).reg().ids()[id]] matches EventConnectionInfo::ReadWriteConnection(_))) ==> final(self).pending_interest().to_set() == old(self).pending_interest().to_set().insert(
                Event { handle: old(self).reg().ids()[id], etype: EventType::Write },
            ),
            (!old(self).reg().ids().contains_key(id) || (old(self).reg().records()[old(
                self,
            ).reg().ids()[id]] matches EventConnectionInfo::ListenerConnection(_))) ==> final(self).pending_interest() == old(self).pending_interest(),
    {
        let handle = match self.registry.handle_of_id(id) {
            Some(h) => h,
            None => {
                return NwriteOutcome::Gone;
            },
        };
        let cd: Option<ConnectionData> = match self.registry.get_record(handle) {
            Some(EventConnectionInfo::ReadWriteConnection(c)) => Some(
                ConnectionData::new(c, self.tid),
            ),
            Some(EventConnectionInfo::ListenerConnection(_)) => None,
            None => None,
        };
        let connection_data = match cd {
            Some(c) => c,
            None => {
                return NwriteOutcome::Listener;
            },
        };
        let mut deliver = false;
        if status.pending_data().len() == 0 {
            if !status.closed_now() {
                if status.take_async_complete() {
                    deliver = true;
                }
            }
        }
        self.push_interest(handle, EventType::Write);
        if deliver {
            NwriteOutcome::AsyncRead { handle, connection_data }
        } else {
            NwriteOutcome::Rearm { handle }
        }
    }

    /// The admission check at accept time: the connection cap first, then
    /// the numeric handle cap.
    pub fn accept_decision(&self, cur: usize, handle: Handle) -> (r: AcceptDecision)
        requires
            handle >= 0,
        ensures
            (r == AcceptDecision::RejectCap) <==> cur >= self.spec_config().max_rwhandles,
            cur < self.spec_config().max_rwhandles ==> ((r == AcceptDecision::RejectHandle) <==> (
            handle as usize) >= self.spec_config().max_handle_numeric_value),
            (r == AcceptDecision::Admit) <==> (cur < self.spec_config().max_rwhandles && (
            handle as usize) < self.spec_config().max_handle_numeric_value),
    {
        if cur >= self.config.max_rwhandles {
            AcceptDecision::RejectCap
        } else if (handle as usize) >= self.config.max_handle_numeric_value {
            AcceptDecision::RejectHandle
        } else {
            AcceptDecision::Admit
        }
    }

    /// Build the record, callback context and foreign-thread handle for an
    /// accepted connection, under a fresh random identifier.
    pub fn make_accepted(&self, accept_handle: Handle, handle: Handle, tls: TlsKind) -> (r: (
        ReadWriteConnection,
        ConnectionContext,
        ConnectionData,
    ))
        ensures
            r.0.get_handle() == handle,
            r.0.get_accept_handle() == Some(accept_handle),
            r.0.kind() == tls,
            r.1.buffer@.len() == 0 && !r.1.is_async_complete,
            r.2.get_connection_id() == r.0.get_connection_id(),
            r.2.get_handle() == handle,
            r.2.get_accept_handle() == Some(accept_handle),
            r.2.tid() == self.spec_tid(),
    {
        let id = random_u128();
        let rec = ReadWriteConnection::new(id, handle, Some(accept_handle), tls);
        let ctx = ConnectionContext::new();
        let cd = ConnectionData::new(&rec, self.tid);
        (rec, ctx, cd)
    }

    /// Charge one admission to the shared counter and queue the accepted
    /// connection (with the context the accept callback saw) for
    /// registration on the next round.
    pub fn enqueue_accepted(
        &mut self,
        rec: ReadWriteConnection,
        ctx: ConnectionContext,
        cur: &mut usize,
    )
        requires
            old(self).wf(),
            *old(cur) < usize::MAX,
        ensures
            final(self).wf(),
            *final(cur) == *old(cur) + 1,
            final(self).admitted() == old(self).admitted() + 1,
            final(self).pending_count() == old(self).pending_count() + 1,
            final(self).reg() == old(self).reg(),
            final(self).spec_nwrites() == old(self).spec_nwrites(),
    {
        *cur = *cur + 1;
        self.accepted_connections.push((rec, ctx));
        proof {
            self.admitted@ = self.admitted@ + 1;
        }
    }

    /// The close path: remove the connection from every map, drop its
    /// pending interest and saturation entries, mark its write status
    /// closed and empty, release its admission charge, clear its filter
    /// bit, and say (exactly once) that the close callback is due. A second
    /// close finds nothing. A listener is only removed from the maps and
    /// the bitset.
    pub fn close_connection(
        &mut self,
        id: u128,
        status: &mut WriteStatus,
        cur: &mut usize,
        close_handle: bool,
    ) -> (r: CloseOutcome)
        requires
            old(self).wf(),
            old(status).wf(),
            (old(self).reg().ids().contains_key(id) && old(self).reg().records()[old(
                self,
            ).reg().ids()[id]] matches EventConnectionInfo::ReadWriteConnection(_)) ==> *old(cur)
                >= 1,
        ensures
            final(self).wf(),
            final(status).wf(),
            !old(self).reg().ids().contains_key(id) ==> (r is NotFound && final(self).reg().ids() == old(self).reg().ids() && final(self).reg().records() == old(
                self,
            ).reg().records() && final(self).reg().contexts() == old(self).reg().contexts()
                && *final(cur) == *old(cur) && *final(status) == *old(status) && final(self).admitted() == old(self).admitted()),
            old(self).reg().ids().contains_key(id) ==> ({
                let h = old(self).reg().ids()[id];
                &&& final(self).reg().ids() == old(self).reg().ids().remove(id)
                &&& final(self).reg().records() == old(self).reg().records().remove(h)
                &&& final(self).reg().infos() == old(self).reg().infos().remove(h)
                &&& final(self).reg().contexts() == old(self).reg().contexts().remove(id)
                &&& bits_of(final(self).filter_view()) == bits_of(old(self).filter_view()).update(
                    h as int,
                    false,
                )
                &&& match old(self).reg().records()[h] {
                    EventConnectionInfo::ReadWriteConnection(_) => {
                        &&& r matches CloseOutcome::Closed {
                            handle,
                            close_handle: ch,
                            connection_data,
                            context,
                        } && handle == h && ch == close_handle
                            && connection_data.get_connection_id() == id && (context is Some <==> old(
                            self,
                        ).reg().contexts().contains_key(id))
                        &&& *final(cur) == *old(cur) - 1
                        &&& final(self).admitted() == old(self).admitted() - 1
                        &&& rw_count(final(self).reg().records()) == rw_count(
                            old(self).reg().records(),
                        ) - 1
                        &&& final(status).is_closed()
                        &&& final(status).buffered().len() == 0
                        &&& final(self).pending_interest().to_set() == old(
                            self,
                        ).pending_interest().to_set().remove(
                            Event { handle: h, etype: EventType::Read },
                        ).remove(Event { handle: h, etype: EventType::Write }).remove(
                            Event { handle: h, etype: EventType::Accept },
                        )
                        &&& !final(self).saturating().contains(h)
                    },
                    EventConnectionInfo::ListenerConnection(_) => {
                        &&& r matches CloseOutcome::Listener { handle } && handle == h
                        &&& *final(cur) == *old(cur)
                        &&& final(self).admitted() == old(self).admitted()
                        &&& *final(status) == *old(status)
                    },
                }
            }),
    {
        let removed = self.registry.remove_connection(id);
        match removed {
            None => {
                proof {
                    assert(self.pending_interest() == old(self).pending_interest());
                    assert forall|i: int|
                        0 <= i < self.pending_interest().len() implies 0
                        <= #[trigger] self.pending_interest()[i].handle
                        < self.spec_config().max_handle_numeric_value by {
                        assert(old(self).pending_interest()[i].handle
                            == self.pending_interest()[i].handle);
                    }
                    assert forall|i: int|
                        0 <= i < self.pending_interest().len() implies (#[trigger] self.pending_interest()[i]).etype
                        != EventType::Error by {
                        assert(old(self).pending_interest()[i].etype
                            == self.pending_interest()[i].etype);
                    }
                    assert forall|h2: Handle| #[trigger]
                        self.reg().records().contains_key(h2) implies 0 <= h2
                        < self.spec_config().max_handle_numeric_value by {
                        assert(old(self).reg().records().contains_key(h2));
                    }
                }
                CloseOutcome::NotFound
            },
            Some((handle, rec, ctx)) => {
                match rec {
                    EventConnectionInfo::ReadWriteConnection(c) => {
                        proof {
                            let recs = old(self).reg().records();
                            recs.dom().lemma_len_filter(
                                |x: Handle| recs[x]
                                    matches EventConnectionInfo::ReadWriteConnection(_),
                            );
                            assert(crate::registry::rw_handle_set(recs).contains(handle));
                            self.admitted@ = (self.admitted@ - 1) as nat;
                        }
                        self.input_events.remove(
                            Event { handle, etype: EventType::Read },
                        );
                        self.input_events.remove(
                            Event { handle, etype: EventType::Write },
                        );
                        self.input_events.remove(
                            Event { handle, etype: EventType::Accept },
                        );
                        proof {
                            assert forall|i: int|
                                0 <= i < self.pending_interest().len() implies 0
                                <= #[trigger] self.pending_interest()[i].handle
                                < self.spec_config().max_handle_numeric_value by {
                                assert(self.pending_interest().to_set().contains(
                                    self.pending_interest()[i],
                                ));
                                assert(old(self).pending_interest().to_set().contains(
                                    self.pending_interest()[i],
                                ));
                                let j = choose|j: int|
                                    0 <= j < old(self).pending_interest().len() && old(
                                        self,
                                    ).pending_interest()[j] == self.pending_interest()[i];
                                assert(old(self).pending_interest()[j].handle
                                    == self.pending_interest()[i].handle);
                            }
                            assert forall|i: int|
                                0 <= i < self.pending_interest().len() implies (#[trigger] self.pending_interest()[i]).etype
                                != EventType::Error by {
                                assert(self.pending_interest().to_set().contains(
                                    self.pending_interest()[i],
                                ));
                                assert(old(self).pending_interest().to_set().contains(
                                    self.pending_interest()[i],
                                ));
                                let j = choose|j: int|
                                    0 <= j < old(self).pending_interest().len() && old(
                                        self,
                                    ).pending_interest()[j] == self.pending_interest()[i];
                                assert(old(self).pending_interest()[j].etype
                                    == self.pending_interest()[i].etype);
                            }
                        }
                        remove_handle(&mut self.saturating_handles, handle);
                        status.mark_closed();
                        *cur = *cur - 1;
                        filter_set(&mut self.filter_set, handle as usize, false);
                        let connection_data = ConnectionData::new(&c, self.tid);
                        CloseOutcome::Closed { handle, close_handle, connection_data, context: ctx }
                    },
                    EventConnectionInfo::ListenerConnection(_) => {
                        filter_set(&mut self.filter_set, handle as usize, false);
                        CloseOutcome::Listener { handle }
                    },
                }
            },
        }
    }
}

/// Everything but the write-queue list is unchanged.
pub open spec fn same_except_nwrites(a: Context, b: Context) -> bool {
    &&& b.reg() == a.reg()
    &&& b.spec_config() == a.spec_config()
    &&& b.spec_tid() == a.spec_tid()
    &&& b.pending_interest() == a.pending_interest()
    &&& b.saturating() == a.saturating()
    &&& b.pending_records() == a.pending_records()
    &&& b.accepted_pairs() == a.accepted_pairs()
    &&& b.admitted() == a.admitted()
    &&& b.spec_wakeup_handle() == a.spec_wakeup_handle()
    &&& b.spec_counter() == a.spec_counter()
    &&& b.filter_view() == a.filter_view()
    &&& b.spec_housekeeper_last() == a.spec_housekeeper_last()
    &&& b.spec_buffer() == a.spec_buffer()
    &&& (a.wf() ==> b.wf())
}

/// Whether a finished read pass closes the connection: a zero or negative
/// read that was not a would-block return means the peer closed or the
/// socket failed.
pub fn read_close_decision(len: isize, would_block: bool) -> (r: bool)
    ensures
        r == (len <= 0 && !would_block),
{
    len <= 0 && !would_block
}

/// Connection accounting: the worker's charge on the shared connection
/// counter always equals its live read-write records plus the admitted ones
/// still awaiting registration; `enqueue_accepted` raises both sides by one
/// and `close_connection` lowers both by one, so decrements match closes
/// one to one.
pub proof fn lemma_connection_accounting(ctx: Context)
    requires
        ctx.wf(),
    ensures
        ctx.admitted() == rw_count(ctx.reg().records()) + ctx.pending_count(),
{
}

/// Panic recovery covers the batch: the events dispatched before the panic
/// at position `k` and those dispatched by the resumed run from `k + 1`
/// are, together and in order, every event of the batch except the one that
/// panicked — none is lost and none runs twice.
pub proof fn lemma_panic_resume_coverage(events: Seq<Event>, k: int)
    requires
        0 <= k < events.len(),
    ensures
        events.take(k) + events.skip(k + 1) == events.remove(k),
        (events.take(k) + events.skip(k + 1)).len() == events.len() - 1,
        forall|i: int|
            0 <= i < k ==> #[trigger] (events.take(k) + events.skip(k + 1))[i] == events[i],
        forall|i: int|
            k <= i < events.len() - 1 ==> #[trigger] (events.take(k) + events.skip(k + 1))[i]
                == events[i + 1],
{
    assert(events.take(k) + events.skip(k + 1) =~= events.remove(k));
}


impl Context {
    /// The batch position, for panic recovery.
    pub fn counter(&self) -> (r: usize)
        ensures
            r == self.spec_counter(),
    {
        self.counter
    }

    /// Start a dispatch pass at a position (zero for a fresh batch, the
    /// resume position after a panic).
    pub fn set_counter(&mut self, c: usize)
        ensures
            final(self).spec_counter() == c,
            same_except_counter(*old(self), *final(self)),
    {
        self.counter = c;
    }

    /// One event dispatched: move to the next.
    pub fn advance_counter(&mut self)
        requires
            old(self).spec_counter() < usize::MAX,
        ensures
            final(self).spec_counter() == old(self).spec_counter() + 1,
            same_except_counter(*old(self), *final(self)),
    {
        self.counter = self.counter + 1;
    }

    /// Where a respawned worker resumes its batch: just past the event
    /// whose dispatch panicked.
    pub fn resume_start(&self) -> (r: usize)
        requires
            self.spec_counter() < usize::MAX,
        ensures
            r == self.spec_counter() + 1,
    {
        self.counter + 1
    }

    /// The selector timeout for the coming wait: zero when saturating
    /// handles wait for another pass or a wakeup was already requested,
    /// else the housekeeping interval.
    pub fn wait_timeout(&self, was_requested: bool) -> (r: isize)
        ensures
            r == if self.saturating().len() > 0 || was_requested {
                0isize
            } else {
                self.spec_config().housekeeper_frequency
            },
    {
        if self.saturating_handles.len() > 0 || was_requested {
            0
        } else {
            self.config.housekeeper_frequency
        }
    }

    /// Whether housekeeping is due at `now` (milliseconds): more than the
    /// configured interval has passed since it last ran. When due, the
    /// timestamp moves to `now` and the shell fires the housekeeping
    /// callback.
    pub fn check_housekeeper(&mut self, now: u128) -> (r: bool)
        requires
            old(self).spec_config().housekeeper_frequency >= 0,
        ensures
            r == (now > old(self).spec_housekeeper_last() && now - old(
                self,
            ).spec_housekeeper_last() > old(self).spec_config().housekeeper_frequency as u128),
            r ==> final(self).spec_housekeeper_last() == now,
            !r ==> final(self).spec_housekeeper_last() == old(self).spec_housekeeper_last(),
            same_except_housekeeper(*old(self), *final(self)),
    {
        let freq = self.config.housekeeper_frequency as u128;
        if now > self.housekeeper_last && now - self.housekeeper_last > freq {
            self.housekeeper_last = now;
            true
        } else {
            false
        }
    }

    /// A read pass drained the socket: it is no longer saturating.
    #[verifier::loop_isolation(false)]
    pub fn note_read_drained(&mut self, handle: Handle)
        requires
            old(self).wf(),
        ensures
            final(self).wf(),
            !final(self).saturating().contains(handle),
            final(self).saturating().to_set() == old(self).saturating().to_set().remove(handle),
            same_except_saturating(*old(self), *final(self)),
    {
        let mut i: usize = 0;
        while i < self.saturating_handles.len()
            invariant
                0 <= i <= self.saturating_handles@.len(),
                self.saturating_handles@ == old(self).saturating(),
                self.saturating_handles@.no_duplicates(),
                same_except_saturating(*old(self), *self),
                forall|j: int| 0 <= j < i ==> self.saturating_handles@[j] != handle,
            decreases self.saturating_handles@.len() - i,
        {
            if self.saturating_handles[i] == handle {
                let ghost before = self.saturating_handles@;
                self.saturating_handles.remove(i);
                proof {
                    assert(self.saturating_handles@ =~= before.subrange(0, i as int)
                        + before.subrange(i + 1, before.len() as int));
                    crate::events::lemma_seq_remove_once(before, i as int, handle);
                }
                return ;
            }
            i = i + 1;
        }
        proof {
            assert(!old(self).saturating().contains(handle));
            assert(old(self).saturating().to_set().remove(handle) =~= old(
                self,
            ).saturating().to_set());
        }
    }

    /// The socket produced `SATURATION_LIMIT` full reads in a row: mark it
    /// for a follow-up pass instead of draining further.
    #[verifier::loop_isolation(false)]
    pub fn note_read_saturating(&mut self, handle: Handle)
        requires
            old(self).wf(),
        ensures
            final(self).wf(),
            final(self).saturating().contains(handle),
            final(self).saturating().to_set() == old(self).saturating().to_set().insert(handle),
            same_except_saturating(*old(self), *final(self)),
    {
        let mut i: usize = 0;
        while i < self.saturating_handles.len()
            invariant
                0 <= i <= self.saturating_handles@.len(),
                self.saturating_handles@ == old(self).saturating(),
                self.saturating_handles@.no_duplicates(),
                same_except_saturating(*old(self), *self),
                forall|j: int| 0 <= j < i ==> self.saturating_handles@[j] != handle,
            decreases self.saturating_handles@.len() - i,
        {
            if self.saturating_handles[i] == handle {
                proof {
                    assert(old(self).saturating().to_set().insert(handle) =~= old(
                        self,
                    ).saturating().to_set());
                }
                return ;
            }
            i = i + 1;
        }
        self.saturating_handles.push(handle);
        proof {
            let pushed = self.saturating_handles@;
            assert(pushed[pushed.len() - 1] == handle);
            assert(pushed.contains(handle));
            assert(pushed.drop_last() =~= old(self).saturating());
            assert forall|x: Handle| #[trigger] pushed.to_set().contains(x) implies old(
                self,
            ).saturating().to_set().insert(handle).contains(x) by {
                let j = choose|j: int| 0 <= j < pushed.len() && pushed[j] == x;
                if j < old(self).saturating().len() {
                    assert(old(self).saturating()[j] == x);
                }
            }
            assert forall|x: Handle|
                old(self).saturating().to_set().insert(handle).contains(
                    x,
                ) implies #[trigger] pushed.to_set().contains(x) by {
                if x == handle {
                    assert(pushed[pushed.len() - 1] == x);
                } else {
                    let j = choose|j: int|
                        0 <= j < old(self).saturating().len() && old(self).saturating()[j] == x;
                    assert(pushed[j] == x);
                }
            }
            assert(pushed.to_set() =~= old(self).saturating().to_set().insert(handle));
        }
    }

    /// The saturating handles, for the follow-up read pass.
    #[verifier::loop_isolation(false)]
    pub fn saturating_handles(&self) -> (r: Vec<Handle>)
        ensures
            r@ == self.saturating(),
    {
        let mut out: Vec<Handle> = Vec::new();
        let mut i: usize = 0;
        while i < self.saturating_handles.len()
            invariant
                0 <= i <= self.saturating_handles@.len(),
                out@ == self.saturating_handles@.take(i as int),
            decreases self.saturating_handles@.len() - i,
        {
            out.push(self.saturating_handles[i]);
            proof {
                assert(out@ =~= self.saturating_handles@.take(i + 1));
            }
            i = i + 1;
        }
        proof {
            assert(self.saturating_handles@.take(i as int) =~= self.saturating_handles@);
        }
        out
    }

    /// Ask for read interest on the handle at the next wait.
    pub fn rearm_read(&mut self, handle: Handle)
        requires
            old(self).wf(),
            0 <= handle < old(self).spec_config().max_handle_numeric_value,
        ensures
            final(self).wf(),
            final(self).pending_interest().to_set() == old(self).pending_interest().to_set().insert(
                Event { handle, etype: EventType::Read },
            ),
            same_except_interest(*old(self), *final(self)),
    {
        self.input_events.insert(Event { handle, etype: EventType::Read });
        proof {
            assert forall|i: int|
                0 <= i < self.pending_interest().len() implies 0
                <= #[trigger] self.pending_interest()[i].handle
                < self.spec_config().max_handle_numeric_value by {
                if i < old(self).pending_interest().len() {
                    assert(old(self).pending_interest()[i] == self.pending_interest()[i]);
                }
            }
        }
    }

    /// Drop the pending interest entries: the selector has applied them.
    pub fn clear_input_events(&mut self)
        requires
            old(self).wf(),
        ensures
            final(self).wf(),
            final(self).pending_interest().len() == 0,
            same_except_interest(*old(self), *final(self)),
    {
        self.input_events.clear();
    }

    /// Turn the pending interest entries into selector operations, in
    /// order: read interest for read and accept entries, write interest for
    /// write entries; an entry whose filter bit is already set becomes a
    /// modify, a fresh one an add, and its bit is set. It always succeeds:
    /// no error-typed entry can be pending.
    #[verifier::loop_isolation(false)]
    pub fn apply_input_events(&mut self) -> (r: Result<Vec<InterestChange>, Error>)
        requires
            old(self).wf(),
        ensures
            final(self).wf(),
            same_except_filter_bits(*old(self), *final(self)),
            r is Ok,
            r matches Ok(v) ==> {
                &&& v@.len() == old(self).pending_interest().len()
                &&& forall|i: int|
                    0 <= i < v@.len() ==> (#[trigger] v@[i]).handle == old(
                        self,
                    ).pending_interest()[i].handle
                &&& forall|i: int|
                    0 <= i < v@.len() ==> (#[trigger] v@[i]).kind == (match old(
                        self,
                    ).pending_interest()[i].etype {
                        EventType::Write => InterestKind::WriteInterest,
                        _ => InterestKind::ReadInterest,
                    })
                &&& forall|i: int|
                    0 <= i < v@.len() ==> ((#[trigger] v@[i]).op == RegOp::Mod <==> (bits_of(
                        old(self).filter_view(),
                    )[v@[i].handle as int] || (exists|j: int|
                        0 <= j < i && old(self).pending_interest()[j].handle == v@[i].handle)))
                &&& forall|b: int|
                    0 <= b < bits_of(final(self).filter_view()).len() ==> (bits_of(
                        final(self).filter_view(),
                    )[b] == (bits_of(old(self).filter_view())[b] || (exists|j: int|
                        0 <= j < old(self).pending_interest().len() && old(
                            self,
                        ).pending_interest()[j].handle == b)))
            },
    {
        let mut out: Vec<InterestChange> = Vec::new();
        let mut i: usize = 0;
        let ghost evs = self.pending_interest();
        let ghost bits0 = bits_of(self.filter_view());
        while i < self.input_events.len()
            invariant
                self.wf(),
                0 <= i <= evs.len(),
                evs == self.pending_interest(),
                bits0 == bits_of(old(self).filter_view()),
                same_except_filter_bits(*old(self), *self),
                out@.len() == i,
                bits_of(self.filter_view()).len() == bits0.len(),
                forall|k: int| 0 <= k < i ==> (#[trigger] out@[k]).handle == evs[k].handle,
                forall|k: int|
                    0 <= k < i ==> (#[trigger] out@[k]).kind == (match evs[k].etype {
                        EventType::Write => InterestKind::WriteInterest,
                        _ => InterestKind::ReadInterest,
                    }),
                forall|k: int|
                    0 <= k < i ==> ((#[trigger] out@[k]).op == RegOp::Mod <==> (bits0[out@[k].handle as int]
                        || (exists|j: int| 0 <= j < k && evs[j].handle == out@[k].handle))),
                forall|b: int|
                    0 <= b < bits_of(self.filter_view()).len() ==> (#[trigger] bits_of(
                        self.filter_view(),
                    )[b] == (bits0[b] || (exists|j: int| 0 <= j < i && evs[j].handle == b))),
                forall|k: int| 0 <= k < i ==> evs[k].etype != EventType::Error,
            decreases evs.len() - i,
        {
            let ev = self.input_events.get(i);
            let kind = match ev.etype {
                EventType::Error => {
                    proof {
                        assert(evs[i as int].etype != EventType::Error);
                        assert(false);
                    }
                    return Err(Error::InternalError);
                },
                EventType::Write => InterestKind::WriteInterest,
                _ => InterestKind::ReadInterest,
            };
            let idx = ev.handle as usize;
            proof {
                assert(evs[i as int].handle == ev.handle);
                assert(ev.handle >= 0 && ev.handle < self.spec_config().max_handle_numeric_value);
                assert(idx == ev.handle);
            }
            let ghost bhead = bits_of(self.filter_view());
            let was = filter_get(&self.filter_set, idx);
            proof {
                assert(bhead.len() == bits0.len());
                assert((idx as int) >= 0 && (idx as int) < bhead.len());
                assert(bhead[idx as int] == (bits0[idx as int] || (exists|j: int|
                    0 <= j < i && evs[j].handle == idx as int)));
                assert(was == bhead[idx as int]);
            }
            let op = if was {
                RegOp::Mod
            } else {
                RegOp::Add
            };
            filter_set(&mut self.filter_set, idx, true);
            out.push(InterestChange { handle: ev.handle, kind, op });
            proof {
                assert(bits_of(self.filter_view()) == bhead.update(idx as int, true));
                assert forall|b: int|
                    0 <= b < bits_of(self.filter_view()).len() implies (bits_of(
                    self.filter_view(),
                )[b] == (bits0[b] || (exists|j: int| 0 <= j < i + 1 && evs[j].handle == b))) by {
                    if b == idx as int {
                        assert(0 <= i < i + 1 && evs[i as int].handle == b);
                        assert(bits_of(self.filter_view())[b]);
                    } else {
                        assert(bits_of(self.filter_view())[b] == bhead[b]);
                        if !bits0[b] && bhead[b] {
                            let j = choose|j: int| 0 <= j < i && evs[j].handle == b;
                            assert(0 <= j < i + 1 && evs[j].handle == b);
                        }
                        if !bits0[b] && (exists|j: int| 0 <= j < i + 1 && evs[j].handle == b) {
                            let j = choose|j: int| 0 <= j < i + 1 && evs[j].handle == b;
                            assert(j != i);
                            assert(0 <= j < i && evs[j].handle == b);
                        }
                    }
                }
            }
            i = i + 1;
        }
        Ok(out)
    }

    /// Drain the inbox contents into the worker. A true result is the stop
    /// order: the worker processes nothing further and exits. Otherwise the
    /// newly delivered and previously accepted records enter the registry
    /// (with read or accept interest and a callback context each), and the
    /// write-queue identifiers are kept for the write pass. Records that
    /// cannot enter (an identifier or handle already live, a handle out of
    /// range, a listener short of this worker's index) come back; for each
    /// read-write record among them the shell must release one admission
    /// charge from the shared counter.
    pub fn process_new(
        &mut self,
        nhandles: Vec<EventConnectionInfo>,
        write_queue: Vec<u128>,
        stop: bool,
    ) -> (r: (bool, Vec<EventConnectionInfo>))
        requires
            old(self).wf(),
        ensures
            final(self).wf(),
            r.0 == stop,
            !stop ==> {
                &&& final(self).pending_count() == 0
                &&& final(self).spec_nwrites() == old(self).spec_nwrites() + write_queue@
                &&& final(self).admitted() + pending_rw(r.1@) == old(self).admitted()
                    + pending_rw(nhandles@)
                &&& forall|id: u128| #[trigger]
                    old(self).reg().ids().contains_key(id) ==> final(self).reg().ids().contains_key(id)
                &&& forall|i: int|
                    0 <= i < nhandles@.len() ==> (final(self).reg().ids().contains_key(
                        (#[trigger] nhandles@[i]).get_connection_id(),
                    ) || r.1@.contains(nhandles@[i]))
                &&& forall|j: int|
                    0 <= j < r.1@.len() ==> !can_register(
                        final(self).reg(),
                        final(self).spec_config().max_handle_numeric_value as int,
                        #[trigger] r.1@[j],
                        final(self).spec_tid(),
                    )
            },
    {
        let mut nhandles = nhandles;
        let mut write_queue = write_queue;
        let ghost given = nhandles@;
        let ghost pend0 = self.add_pending@;
        proof {
            self.admitted@ = self.admitted@ + pending_rw(nhandles@);
            lemma_pending_rw_concat(self.add_pending@, nhandles@);
        }
        self.add_pending.append(&mut nhandles);
        self.nwrites.append(&mut write_queue);
        if stop {
            return (true, Vec::new());
        }
        let ghost merged = self.pending_records();
        let ghost reg0 = self.reg();
        let rejected = self.process_pending();
        proof {
            assert(merged == pend0 + given);
            assert forall|id: u128| #[trigger]
                old(self).reg().ids().contains_key(id) implies self.reg().ids().contains_key(
                id,
            ) by {
                assert(reg0.ids().contains_key(id));
            }
            assert forall|i: int|
                0 <= i < given.len() implies (self.reg().ids().contains_key(
                (#[trigger] given[i]).get_connection_id(),
            ) || rejected@.contains(given[i])) by {
                assert(merged[pend0.len() + i] == given[i]);
            }
        }
        (false, rejected)
    }

}

/// Everything but the counter is unchanged.
pub open spec fn same_except_counter(a: Context, b: Context) -> bool {
    &&& b.reg() == a.reg()
    &&& b.spec_config() == a.spec_config()
    &&& b.spec_tid() == a.spec_tid()
    &&& b.pending_interest() == a.pending_interest()
    &&& b.saturating() == a.saturating()
    &&& b.pending_records() == a.pending_records()
    &&& b.accepted_pairs() == a.accepted_pairs()
    &&& b.admitted() == a.admitted()
    &&& b.spec_wakeup_handle() == a.spec_wakeup_handle()
    &&& b.filter_view() == a.filter_view()
    &&& b.spec_nwrites() == a.spec_nwrites()
    &&& b.spec_housekeeper_last() == a.spec_housekeeper_last()
    &&& b.spec_buffer() == a.spec_buffer()
    &&& (a.wf() ==> b.wf())
}

/// Everything but the housekeeping timestamp is unchanged.
pub open spec fn same_except_housekeeper(a: Context, b: Context) -> bool {
    &&& b.reg() == a.reg()
    &&& b.spec_config() == a.spec_config()
    &&& b.spec_tid() == a.spec_tid()
    &&& b.pending_interest() == a.pending_interest()
    &&& b.saturating() == a.saturating()
    &&& b.pending_records() == a.pending_records()
    &&& b.accepted_pairs() == a.accepted_pairs()
    &&& b.admitted() == a.admitted()
    &&& b.spec_wakeup_handle() == a.spec_wakeup_handle()
    &&& b.spec_counter() == a.spec_counter()
    &&& b.filter_view() == a.filter_view()
    &&& b.spec_nwrites() == a.spec_nwrites()
    &&& b.spec_buffer() == a.spec_buffer()
    &&& (a.wf() ==> b.wf())
}

/// Everything but the saturation set is unchanged.
pub open spec fn same_except_saturating(a: Context, b: Context) -> bool {
    &&& b.reg() == a.reg()
    &&& b.spec_config() == a.spec_config()
    &&& b.spec_tid() == a.spec_tid()
    &&& b.pending_interest() == a.pending_interest()
    &&& b.pending_records() == a.pending_records()
    &&& b.accepted_pairs() == a.accepted_pairs()
    &&& b.admitted() == a.admitted()
    &&& b.spec_wakeup_handle() == a.spec_wakeup_handle()
    &&& b.spec_counter() == a.spec_counter()
    &&& b.filter_view() == a.filter_view()
    &&& b.spec_nwrites() == a.spec_nwrites()
    &&& b.spec_housekeeper_last() == a.spec_housekeeper_last()
    &&& b.spec_buffer() == a.spec_buffer()
}

/// Everything but the pending-interest set is unchanged.
pub open spec fn same_except_interest(a: Context, b: Context) -> bool {
    &&& b.reg() == a.reg()
    &&& b.spec_config() == a.spec_config()
    &&& b.spec_tid() == a.spec_tid()
    &&& b.saturating() == a.saturating()
    &&& b.pending_records() == a.pending_records()
    &&& b.accepted_pairs() == a.accepted_pairs()
    &&& b.admitted() == a.admitted()
    &&& b.spec_wakeup_handle() == a.spec_wakeup_handle()
    &&& b.spec_counter() == a.spec_counter()
    &&& b.filter_view() == a.filter_view()
    &&& b.spec_nwrites() == a.spec_nwrites()
    &&& b.spec_housekeeper_last() == a.spec_housekeeper_last()
    &&& b.spec_buffer() == a.spec_buffer()
}

/// Everything but the filter bitset is unchanged.
pub open spec fn same_except_filter_bits(a: Context, b: Context) -> bool {
    &&& b.reg() == a.reg()
    &&& b.spec_config() == a.spec_config()
    &&& b.spec_tid() == a.spec_tid()
    &&& b.pending_interest() == a.pending_interest()
    &&& b.saturating() == a.saturating()
    &&& b.pending_records() == a.pending_records()
    &&& b.accepted_pairs() == a.accepted_pairs()
    &&& b.admitted() == a.admitted()
    &&& b.spec_wakeup_handle() == a.spec_wakeup_handle()
    &&& b.spec_counter() == a.spec_counter()
    &&& b.spec_nwrites() == a.spec_nwrites()
    &&& b.spec_housekeeper_last() == a.spec_housekeeper_last()
    &&& b.spec_buffer() == a.spec_buffer()
    &&& bits_of(b.filter_view()).len() == bits_of(a.filter_view()).len()
}

} // verus!
