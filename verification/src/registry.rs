//! The per-worker connection registry: three mutually consistent maps
//! (identifier to handle, handle to record, handle to redundant info), plus
//! the per-connection contexts.
//!
//! Well-formedness makes the identifier and handle maps a bijection over the
//! live connections: every live connection has exactly one entry in each of
//! the three maps, and a closed one has none.

use std::collections::HashMap;

use vstd::prelude::*;

use crate::connection::ConnectionContext;
use crate::connection::EventConnectionInfo;
use crate::connection::Handle;
use crate::connection::HandleInfo;

verus! {

broadcast use vstd::std_specs::hash::group_hash_axioms;

/// The handles whose records are read-write connections.
pub open spec fn rw_handle_set(m: Map<Handle, EventConnectionInfo>) -> Set<Handle> {
    m.dom().filter(
        |h: Handle| m[h] matches EventConnectionInfo::ReadWriteConnection(_),
    )
}

/// The number of live read-write connections in a record map.
pub open spec fn rw_count(m: Map<Handle, EventConnectionInfo>) -> nat {
    rw_handle_set(m).len()
}

/// The three per-worker maps and the per-connection contexts.
pub struct Registry {
    connection_id_map: HashMap<u128, Handle>,
    connection_handle_map: HashMap<Handle, EventConnectionInfo>,
    handle_hash: HashMap<Handle, HandleInfo>,
    context_map: HashMap<u128, ConnectionContext>,
}

impl Registry {
    /// Identifier to handle.
    pub closed spec fn ids(&self) -> Map<u128, Handle> {
        self.connection_id_map@
    }

    /// Handle to owning record.
    pub closed spec fn records(&self) -> Map<Handle, EventConnectionInfo> {
        self.connection_handle_map@
    }

    /// Handle to redundant info entry.
    pub closed spec fn infos(&self) -> Map<Handle, HandleInfo> {
        self.handle_hash@
    }

    /// Identifier to callback context.
    pub closed spec fn contexts(&self) -> Map<u128, ConnectionContext> {
        self.context_map@
    }

    /// The three maps agree: identifiers and handles are in bijection, the
    /// info entries shadow the records, records sit under their own handle,
    /// and contexts belong to live connections.
    pub open spec fn wf(&self) -> bool {
        &&& self.ids().dom().finite()
        &&& self.records().dom().finite()
        &&& self.infos().dom().finite()
        &&& self.contexts().dom().finite()
        &&& forall|id: u128| #[trigger]
            self.ids().contains_key(id) ==> {
                &&& self.records().contains_key(self.ids()[id])
                &&& self.records()[self.ids()[id]].spec_connection_id() == id
                &&& self.infos().contains_key(self.ids()[id])
                &&& self.infos()[self.ids()[id]].connection_id == id
            }
        &&& forall|h: Handle| #[trigger]
            self.records().contains_key(h) ==> {
                &&& self.ids().contains_key(self.records()[h].spec_connection_id())
                &&& self.ids()[self.records()[h].spec_connection_id()] == h
            }
        &&& forall|h: Handle|
            self.infos().contains_key(h) <==> #[trigger] self.records().contains_key(h)
        &&& forall|h: Handle| #[trigger]
            self.records().contains_key(h) ==> match self.records()[h] {
                EventConnectionInfo::ReadWriteConnection(c) => c.spec_handle() == h,
                EventConnectionInfo::ListenerConnection(_) => true,
            }
        &&& forall|id: u128| #[trigger]
            self.contexts().contains_key(id) ==> self.ids().contains_key(id)
    }

    /// An empty registry.
    pub fn new() -> (r: Self)
        ensures
            r.wf(),
            r.ids() == Map::<u128, Handle>::empty(),
            r.records() == Map::<Handle, EventConnectionInfo>::empty(),
            r.infos() == Map::<Handle, HandleInfo>::empty(),
            r.contexts() == Map::<u128, ConnectionContext>::empty(),
    {
        Self {
            connection_id_map: HashMap::new(),
            connection_handle_map: HashMap::new(),
            handle_hash: HashMap::new(),
            context_map: HashMap::new(),
        }
    }

    /// Whether an identifier is live.
    pub fn contains_id(&self, id: u128) -> (r: bool)
        ensures
            r == self.ids().contains_key(id),
    {
        self.connection_id_map.contains_key(&id)
    }

    /// The handle a live identifier maps to.
    pub fn handle_of_id(&self, id: u128) -> (r: Option<Handle>)
        ensures
            match r {
                Some(h) => self.ids().contains_key(id) && self.ids()[id] == h,
                None => !self.ids().contains_key(id),
            },
    {
        match self.connection_id_map.get(&id) {
            Some(h) => Some(*h),
            None => None,
        }
    }

    /// The record under a handle.
    pub fn get_record(&self, handle: Handle) -> (r: Option<&EventConnectionInfo>)
        ensures
            match r {
                Some(rec) => self.records().contains_key(handle) && *rec
                    == self.records()[handle],
                None => !self.records().contains_key(handle),
            },
    {
        self.connection_handle_map.get(&handle)
    }

    /// The redundant info under a handle.
    pub fn info_of(&self, handle: Handle) -> (r: Option<HandleInfo>)
        ensures
            match r {
                Some(info) => self.infos().contains_key(handle) && info
                    == self.infos()[handle],
                None => !self.infos().contains_key(handle),
            },
    {
        match self.handle_hash.get(&handle) {
            Some(info) => Some(*info),
            None => None,
        }
    }

    /// Insert one record into all three maps, under the handle it carries
    /// for this worker.
    pub fn insert(&mut self, rec: EventConnectionInfo, tid: usize)
        requires
            old(self).wf(),
            !old(self).ids().contains_key(rec.get_connection_id()),
            rec matches EventConnectionInfo::ListenerConnection(c) ==> tid
                < c.spec_handles().len(),
            !old(self).records().contains_key(
                match rec {
                    EventConnectionInfo::ListenerConnection(c) => c.spec_handles()[tid as int],
                    EventConnectionInfo::ReadWriteConnection(c) => c.spec_handle(),
                },
            ),
        ensures
            final(self).wf(),
            ({
                let h = match rec {
                    EventConnectionInfo::ListenerConnection(c) => c.spec_handles()[tid as int],
                    EventConnectionInfo::ReadWriteConnection(c) => c.spec_handle(),
                };
                let id = rec.get_connection_id();
                &&& final(self).ids() == old(self).ids().insert(id, h)
                &&& final(self).records() == old(self).records().insert(h, rec)
                &&& final(self).infos() == old(self).infos().insert(
                    h,
                    HandleInfo { connection_id: id, flags: 0 },
                )
                &&& final(self).contexts() == old(self).contexts()
                &&& rw_count(final(self).records()) == rw_count(old(self).records()) + (
                match rec {
                    EventConnectionInfo::ReadWriteConnection(_) => 1nat,
                    EventConnectionInfo::ListenerConnection(_) => 0nat,
                })
            }),
    {
        let id = rec.get_connection_id();
        let handle = rec.get_handle(tid);
        let info = HandleInfo::new(id, 0);
        proof {
            lemma_rw_count_insert(self.records(), handle, rec);
        }
        self.connection_id_map.insert(id, handle);
        self.connection_handle_map.insert(handle, rec);
        self.handle_hash.insert(handle, info);
        proof {
            assert(self.contexts() =~= old(self).contexts());
            assert forall|id2: u128| #[trigger]
                self.contexts().contains_key(id2) implies self.ids().contains_key(id2) by {
                assert(old(self).contexts().contains_key(id2));
                assert(old(self).ids().contains_key(id2));
            }
        }
    }

    /// Remove a connection from all maps. Returns its handle, record and
    /// context when it was live, and nothing when it was not: the second
    /// close of one connection finds nothing.
    pub fn remove_connection(&mut self, id: u128) -> (r: Option<
        (Handle, EventConnectionInfo, Option<ConnectionContext>),
    >)
        requires
            old(self).wf(),
        ensures
            final(self).wf(),
            !old(self).ids().contains_key(id) ==> r is None && final(self).ids() == old(
                self,
            ).ids() && final(self).records() == old(self).records() && final(self).infos() == old(
                self,
            ).infos() && final(self).contexts() == old(self).contexts(),
            old(self).ids().contains_key(id) ==> ({
                let h = old(self).ids()[id];
                &&& r matches Some((rh, rec, ctx)) && rh == h && rec == old(self).records()[h]
                    && rec.spec_connection_id() == id && (ctx is Some <==> old(
                    self,
                ).contexts().contains_key(id))
                &&& final(self).ids() == old(self).ids().remove(id)
                &&& final(self).records() == old(self).records().remove(h)
                &&& final(self).infos() == old(self).infos().remove(h)
                &&& final(self).contexts() == old(self).contexts().remove(id)
                &&& rw_count(old(self).records()) == rw_count(final(self).records()) + (
                match old(self).records()[h] {
                    EventConnectionInfo::ReadWriteConnection(_) => 1nat,
                    EventConnectionInfo::ListenerConnection(_) => 0nat,
                })
            }),
    {
        let handle = match self.connection_id_map.remove(&id) {
            Some(h) => h,
            None => {
                proof {
                    assert(self.ids() =~= old(self).ids());
                    assert(self.ids() == old(self).ids());
                    assert(self.records() == old(self).records());
                    assert(self.infos() == old(self).infos());
                    assert(self.contexts() == old(self).contexts());
                }
                return None;
            },
        };
        proof {
            lemma_rw_count_remove(self.records(), handle);
        }
        let rec = match self.connection_handle_map.remove(&handle) {
            Some(rec) => rec,
            None => {
                proof {
                    assert(false);
                }
                vstd::pervasive::unreached()
            },
        };
        self.handle_hash.remove(&handle);
        let ctx = self.context_map.remove(&id);
        proof {
            assert(self.ids() == old(self).ids().remove(id));
            assert(self.records() == old(self).records().remove(handle));
            assert(self.infos() == old(self).infos().remove(handle));
            assert(self.contexts() == old(self).contexts().remove(id));
            assert forall|id2: u128| #[trigger]
                self.ids().contains_key(id2) implies {
                &&& self.records().contains_key(self.ids()[id2])
                &&& self.records()[self.ids()[id2]].spec_connection_id() == id2
                &&& self.infos().contains_key(self.ids()[id2])
                &&& self.infos()[self.ids()[id2]].connection_id == id2
            } by {
                assert(old(self).ids().contains_key(id2));
                assert(old(self).ids()[id2] != handle);
            }
            assert forall|id2: u128| #[trigger]
                self.contexts().contains_key(id2) implies self.ids().contains_key(id2) by {
                assert(old(self).contexts().contains_key(id2));
            }
        }
        Some((handle, rec, ctx))
    }

    /// Store the context of a live connection.
    pub fn insert_context(&mut self, id: u128, ctx: ConnectionContext)
        requires
            old(self).wf(),
            old(self).ids().contains_key(id),
        ensures
            final(self).wf(),
            final(self).ids() == old(self).ids(),
            final(self).records() == old(self).records(),
            final(self).infos() == old(self).infos(),
            final(self).contexts() == old(self).contexts().insert(id, ctx),
    {
        self.context_map.insert(id, ctx);
        proof {
            assert forall|id2: u128| #[trigger]
                self.contexts().contains_key(id2) implies self.ids().contains_key(id2) by {
                if id2 != id {
                    assert(old(self).contexts().contains_key(id2));
                }
            }
        }
    }

    /// Whether a context is stored for the identifier.
    pub fn has_context(&self, id: u128) -> (r: bool)
        ensures
            r == self.contexts().contains_key(id),
    {
        self.context_map.contains_key(&id)
    }

    /// Take a connection's context out, to hand to a callback; put it back
    /// with `insert_context`.
    pub fn take_context(&mut self, id: u128) -> (r: Option<ConnectionContext>)
        requires
            old(self).wf(),
        ensures
            final(self).wf(),
            final(self).ids() == old(self).ids(),
            final(self).records() == old(self).records(),
            final(self).infos() == old(self).infos(),
            final(self).contexts() == old(self).contexts().remove(id),
            r is Some <==> old(self).contexts().contains_key(id),
            r matches Some(c) ==> c == old(self).contexts()[id],
    {
        match self.context_map.remove(&id) {
            Some(c) => {
                proof {
                    assert(self.contexts() =~= old(self).contexts().remove(id));
                    lemma_wf_preserved_maps(*old(self), *self);
                }
                Some(c)
            },
            None => {
                proof {
                    assert(self.contexts() =~= old(self).contexts().remove(id));
                    lemma_wf_preserved_maps(*old(self), *self);
                }
                None
            },
        }
    }
}


/// Well-formedness survives when the three maps are unchanged and the
/// context domain only shrank.
proof fn lemma_wf_preserved_maps(a: Registry, b: Registry)
    requires
        a.wf(),
        b.ids() == a.ids(),
        b.records() == a.records(),
        b.infos() == a.infos(),
        forall|id: u128| #[trigger]
            b.contexts().contains_key(id) ==> a.contexts().contains_key(id),
    ensures
        b.wf(),
{
    assert forall|id: u128| #[trigger] b.ids().contains_key(id) implies {
        &&& b.records().contains_key(b.ids()[id])
        &&& b.records()[b.ids()[id]].spec_connection_id() == id
        &&& b.infos().contains_key(b.ids()[id])
        &&& b.infos()[b.ids()[id]].connection_id == id
    } by {
        assert(a.ids().contains_key(id));
    }
    assert forall|h: Handle| #[trigger] b.records().contains_key(h) implies {
        &&& b.ids().contains_key(b.records()[h].spec_connection_id())
        &&& b.ids()[b.records()[h].spec_connection_id()] == h
    } by {
        assert(a.records().contains_key(h));
    }
    assert forall|h: Handle|
        b.infos().contains_key(h) <==> #[trigger] b.records().contains_key(h) by {
        assert(a.infos().contains_key(h) <==> a.records().contains_key(h));
    }
    assert forall|h: Handle| #[trigger] b.records().contains_key(h) implies match b.records()[h] {
        EventConnectionInfo::ReadWriteConnection(c) => c.spec_handle() == h,
        EventConnectionInfo::ListenerConnection(_) => true,
    } by {
        assert(a.records().contains_key(h));
    }
    assert forall|id: u128| #[trigger]
        b.contexts().contains_key(id) implies b.ids().contains_key(id) by {
        assert(a.contexts().contains_key(id));
    }
}

/// Inserting a record under a fresh handle grows the read-write count by
/// one exactly when the record is a read-write record.
proof fn lemma_rw_count_insert(m: Map<Handle, EventConnectionInfo>, h: Handle, rec: EventConnectionInfo)
    requires
        m.dom().finite(),
        !m.contains_key(h),
    ensures
        rw_count(m.insert(h, rec)) == rw_count(m) + (match rec {
            EventConnectionInfo::ReadWriteConnection(_) => 1nat,
            EventConnectionInfo::ListenerConnection(_) => 0nat,
        }),
{
    m.dom().lemma_len_filter(
        |x: Handle| m[x] matches EventConnectionInfo::ReadWriteConnection(_),
    );
    match rec {
        EventConnectionInfo::ReadWriteConnection(_) => {
            assert(rw_handle_set(m.insert(h, rec)) =~= rw_handle_set(m).insert(h));
            assert(!rw_handle_set(m).contains(h));
        },
        EventConnectionInfo::ListenerConnection(_) => {
            assert(rw_handle_set(m.insert(h, rec)) =~= rw_handle_set(m));
        },
    }
}

/// Removing a handle shrinks the read-write count by one exactly when its
/// record was a read-write record.
proof fn lemma_rw_count_remove(m: Map<Handle, EventConnectionInfo>, h: Handle)
    requires
        m.dom().finite(),
        m.contains_key(h),
    ensures
        rw_count(m) == rw_count(m.remove(h)) + (match m[h] {
            EventConnectionInfo::ReadWriteConnection(_) => 1nat,
            EventConnectionInfo::ListenerConnection(_) => 0nat,
        }),
{
    m.dom().lemma_len_filter(
        |x: Handle| m[x] matches EventConnectionInfo::ReadWriteConnection(_),
    );
    match m[h] {
        EventConnectionInfo::ReadWriteConnection(_) => {
            assert(rw_handle_set(m.remove(h)) =~= rw_handle_set(m).remove(h));
            assert(rw_handle_set(m).contains(h));
        },
        EventConnectionInfo::ListenerConnection(_) => {
            assert(rw_handle_set(m.remove(h)) =~= rw_handle_set(m));
        },
    }
}

/// Every live connection has exactly one entry in each of the three maps:
/// its identifier maps to one handle, under which one record and one info
/// entry stand, and no other handle carries a record or info entry with its
/// identifier.
pub proof fn lemma_live_connection_entries(reg: Registry, id: u128)
    requires
        reg.wf(),
        reg.ids().contains_key(id),
    ensures
        reg.records().contains_key(reg.ids()[id]),
        reg.records()[reg.ids()[id]].spec_connection_id() == id,
        reg.infos().contains_key(reg.ids()[id]),
        reg.infos()[reg.ids()[id]].connection_id == id,
        forall|h: Handle|
            #[trigger] reg.records().contains_key(h)
                && reg.records()[h].spec_connection_id() == id ==> h == reg.ids()[id],
        forall|h: Handle|
            #[trigger] reg.infos().contains_key(h) && reg.infos()[h].connection_id == id ==> h
                == reg.ids()[id],
{
    assert forall|h: Handle|
        #[trigger] reg.infos().contains_key(h) && reg.infos()[h].connection_id == id implies h
        == reg.ids()[id] by {
        assert(reg.records().contains_key(h));
        let hid = reg.records()[h].spec_connection_id();
        assert(reg.ids().contains_key(hid) && reg.ids()[hid] == h);
        assert(reg.infos()[reg.ids()[hid]].connection_id == hid);
    }
}

/// A connection that has been closed has no entry in any map: removal
/// empties all four at once.
pub proof fn lemma_closed_connection_gone(reg_before: Registry, reg_after: Registry, id: u128)
    requires
        reg_before.wf(),
        reg_before.ids().contains_key(id),
        reg_after.ids() == reg_before.ids().remove(id),
        reg_after.records() == reg_before.records().remove(reg_before.ids()[id]),
        reg_after.infos() == reg_before.infos().remove(reg_before.ids()[id]),
        reg_after.contexts() == reg_before.contexts().remove(id),
    ensures
        !reg_after.ids().contains_key(id),
        !reg_after.contexts().contains_key(id),
        forall|h: Handle|
            #[trigger] reg_after.records().contains_key(h)
                ==> reg_after.records()[h].spec_connection_id() != id,
        forall|h: Handle|
            #[trigger] reg_after.infos().contains_key(h) ==> reg_after.infos()[h].connection_id
                != id,
{
    let hid = reg_before.ids()[id];
    assert forall|h: Handle| #[trigger]
        reg_after.records().contains_key(h) implies reg_after.records()[h].spec_connection_id()
        != id by {
        assert(reg_before.records().contains_key(h));
        if reg_before.records()[h].spec_connection_id() == id {
            assert(reg_before.ids()[id] == h);
        }
    }
    assert forall|h: Handle| #[trigger]
        reg_after.infos().contains_key(h) implies reg_after.infos()[h].connection_id != id by {
        assert(reg_before.infos().contains_key(h));
        assert(reg_before.records().contains_key(h));
        if reg_before.infos()[h].connection_id == id {
            let hid2 = reg_before.records()[h].spec_connection_id();
            assert(reg_before.ids().contains_key(hid2) && reg_before.ids()[hid2] == h);
            assert(reg_before.infos()[h].connection_id == hid2);
        }
    }
}

} // verus!
