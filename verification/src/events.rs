//! Selector events and the worker's pending-interest set.

use vstd::prelude::*;

use crate::connection::Handle;

verus! {

/// What a selector event reports, or what interest the worker wants.
#[derive(Debug, Clone, Copy, PartialEq, Eq, Structural)]
pub enum EventType {
    /// Incoming connections on a listener (registered as read interest;
    /// never reported back: accepts arrive as `Read`).
    Accept,
    /// Bytes (or an accept) are ready to read.
    Read,
    /// The socket became writable.
    Write,
    /// The selector reported a failure on the handle.
    Error,
}

/// One readiness event or interest entry.
#[derive(Debug, Clone, Copy, PartialEq, Eq, Structural)]
pub struct Event {
    /// The socket it concerns.
    pub handle: Handle,
    /// What it reports or requests.
    pub etype: EventType,
}

/// A set of events, kept without duplicates; insertion order is preserved
/// for iteration.
pub struct EventSet {
    items: Vec<Event>,
}

impl EventSet {
    /// The events, in insertion order.
    pub closed spec fn view(&self) -> Seq<Event> {
        self.items@
    }

    /// The events as a set.
    pub open spec fn to_set(&self) -> Set<Event> {
        self.view().to_set()
    }

    /// No event appears twice.
    pub open spec fn wf(&self) -> bool {
        self.view().no_duplicates()
    }

    /// An empty set.
    pub fn new() -> (r: Self)
        ensures
            r.wf(),
            r.view().len() == 0,
    {
        Self { items: Vec::new() }
    }

    /// How many events are held.
    pub fn len(&self) -> (r: usize)
        ensures
            r == self.view().len(),
    {
        self.items.len()
    }

    /// The event at a position.
    pub fn get(&self, i: usize) -> (r: Event)
        requires
            i < self.view().len(),
        ensures
            r == self.view()[i as int],
    {
        self.items[i]
    }

    /// Whether the event is held.
    pub fn contains(&self, e: Event) -> (r: bool)
        ensures
            r == self.view().contains(e),
    {
        let mut i: usize = 0;
        while i < self.items.len()
            invariant
                0 <= i <= self.items@.len(),
                forall|j: int| 0 <= j < i ==> self.items@[j] != e,
            decreases self.items@.len() - i,
        {
            if self.items[i] == e {
                return true;
            }
            i = i + 1;
        }
        false
    }

    /// Add an event; nothing changes when it is already held.
    pub fn insert(&mut self, e: Event)
        requires
            old(self).wf(),
        ensures
            final(self).wf(),
            final(self).to_set() == old(self).to_set().insert(e),
            old(self).view().contains(e) ==> final(self).view() == old(self).view(),
            !old(self).view().contains(e) ==> final(self).view() == old(self).view().push(e),
    {
        if !self.contains(e) {
            self.items.push(e);
            proof {
                assert(self.items@.drop_last() =~= old(self).view());
                assert(self.items@.last() == e);
                assert forall|x: Event| #[trigger] self.items@.to_set().contains(x) implies old(
                    self,
                ).to_set().insert(e).contains(x) by {
                    let j = choose|j: int| 0 <= j < self.items@.len() && self.items@[j] == x;
                    if j < old(self).view().len() {
                        assert(old(self).view()[j] == x);
                    }
                }
                assert forall|x: Event| old(self).to_set().insert(e).contains(x) implies #[trigger] self.items@.to_set().contains(x) by {
                    if x == e {
                        assert(self.items@[self.items@.len() - 1] == x);
                    } else {
                        let j = choose|j: int|
                            0 <= j < old(self).view().len() && old(self).view()[j] == x;
                        assert(self.items@[j] == x);
                    }
                }
                assert(self.items@.to_set() =~= old(self).to_set().insert(e));
            }
        } else {
            proof {
                assert(old(self).to_set().insert(e) =~= old(self).to_set());
            }
        }
    }

    /// Remove an event; nothing changes when it is not held.
    pub fn remove(&mut self, e: Event)
        requires
            old(self).wf(),
        ensures
            final(self).wf(),
            final(self).to_set() == old(self).to_set().remove(e),
            !final(self).view().contains(e),
    {
        let mut i: usize = 0;
        while i < self.items.len()
            invariant
                0 <= i <= self.items@.len(),
                self.items@ == old(self).view(),
                self.items@.no_duplicates(),
                forall|j: int| 0 <= j < i ==> self.items@[j] != e,
            decreases self.items@.len() - i,
        {
            if self.items[i] == e {
                let ghost before = self.items@;
                self.items.remove(i);
                proof {
                    assert(self.items@ =~= before.subrange(0, i as int) + before.subrange(
                        i + 1,
                        before.len() as int,
                    ));
                    lemma_seq_remove_once(before, i as int, e);
                }
                return ;
            }
            i = i + 1;
        }
        proof {
            assert(!old(self).view().contains(e));
            assert(old(self).to_set().remove(e) =~= old(self).to_set());
        }
    }

    /// Drop everything.
    pub fn clear(&mut self)
        ensures
            final(self).wf(),
            final(self).view().len() == 0,
            final(self).to_set() == Set::<Event>::empty(),
    {
        self.items.clear();
        proof {
            assert(self.items@.to_set() =~= Set::<Event>::empty());
        }
    }
}

/// Removing the only occurrence of an element from a duplicate-free sequence
/// keeps it duplicate-free, removes the element from the set of members, and
/// keeps every other member.
pub proof fn lemma_seq_remove_once<T>(s: Seq<T>, i: int, e: T)
    requires
        s.no_duplicates(),
        0 <= i < s.len(),
        s[i] == e,
    ensures
        (s.subrange(0, i) + s.subrange(i + 1, s.len() as int)).no_duplicates(),
        (s.subrange(0, i) + s.subrange(i + 1, s.len() as int)).to_set() == s.to_set().remove(e),
{
    let rest = s.subrange(0, i) + s.subrange(i + 1, s.len() as int);
    assert forall|j: int, k: int| 0 <= j < k < rest.len() implies rest[j] != rest[k] by {
        let sj = if j < i {
            j
        } else {
            j + 1
        };
        let sk = if k < i {
            k
        } else {
            k + 1
        };
        assert(rest[j] == s[sj] && rest[k] == s[sk]);
    }
    assert forall|x: T| rest.to_set().contains(x) implies s.to_set().remove(e).contains(
        x,
    ) by {
        let j = choose|j: int| 0 <= j < rest.len() && rest[j] == x;
        let sj = if j < i {
            j
        } else {
            j + 1
        };
        assert(s[sj] == x);
        assert(x != e);
    }
    assert forall|x: T| s.to_set().remove(e).contains(x) implies rest.to_set().contains(
        x,
    ) by {
        let sj = choose|sj: int| 0 <= sj < s.len() && s[sj] == x;
        let j = if sj < i {
            sj
        } else {
            sj - 1
        };
        assert(sj != i);
        assert(rest[j] == x);
    }
    assert(rest.to_set() =~= s.to_set().remove(e));
}

} // verus!
