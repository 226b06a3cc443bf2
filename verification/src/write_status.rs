//! Per-connection write state: the pending buffer, the status flags, and the
//! decisions taken on both sides of a socket write.
//!
//! A write from any thread first consults this state (`begin_write`): if bytes
//! are already pending they are queued behind them; otherwise the caller
//! performs one non-blocking socket write and reports the outcome
//! (`finish_write`). The owning worker later drains the queue
//! (`pending_data` / `apply_os_write` / `drain_complete_action`).
//!
//! Two ghost histories account for every byte: `submitted` is all data
//! accepted for delivery, `sent` is what the socket has taken so far. While
//! the connection is open, `submitted == sent + write_buffer`, in order.

use vstd::prelude::*;

use crate::errors::Error;

verus! {

/// What one non-blocking socket write came back with.
///
/// The shell maps the raw return value: a non-negative count to `Written`, a
/// negative return with the would-block errno to `WouldBlock`, any other
/// negative return to `Failed`.
#[derive(Clone, Copy, Debug)]
pub enum OsWriteResult {
    /// The socket accepted this many bytes.
    Written(usize),
    /// The socket would have blocked; nothing was taken.
    WouldBlock,
    /// A real error; nothing was taken.
    Failed,
}

/// First decision of a write call, taken before any socket work.
#[derive(Clone, Copy, Debug, PartialEq, Eq, Structural)]
pub enum WriteDecision {
    /// The connection is closed; the write is refused.
    Closed,
    /// Bytes were queued behind already-pending data; wake the worker.
    Buffered,
    /// Nothing is pending: the caller should write to the socket now.
    WriteNow,
}

/// Outcome of a write call once the socket write (if any) is accounted for.
#[derive(Clone, Copy, Debug, PartialEq, Eq, Structural)]
pub enum WriteOutcome {
    /// Everything was taken by the socket.
    Complete,
    /// Some bytes remain queued; the owning worker must be woken.
    Notify,
    /// The socket reported a real error.
    Error,
}

/// Classification of one drain-side socket write, as the worker's write-event
/// loop needs it: a would-block return pauses the drain, a real error closes
/// the connection, anything else continues.
#[derive(Clone, Copy, Debug, PartialEq, Eq, Structural)]
pub enum WriteResult {
    /// Bytes (possibly zero) were taken; keep draining.
    Wrote,
    /// A real error; the connection must be closed.
    Failed,
    /// The socket would block; leave write interest armed and stop.
    Blocked,
}

/// What to do once the pending buffer has fully drained.
#[derive(Clone, Copy, Debug, PartialEq, Eq, Structural)]
pub enum DrainDone {
    /// A close was requested for completion time: close the connection now.
    Close,
    /// Re-arm read interest and carry on.
    RearmRead,
}

/// The write-side state of one connection.
pub struct WriteStatus {
    write_buffer: Vec<u8>,
    is_pending_flag: bool,
    close_oncomplete_flag: bool,
    is_closed_flag: bool,
    async_complete_flag: bool,
    submitted_bytes: Ghost<Seq<u8>>,
    sent_bytes: Ghost<Seq<u8>>,
}

impl WriteStatus {
    /// Bytes queued for the socket and not yet taken by it.
    pub closed spec fn buffered(&self) -> Seq<u8> {
        self.write_buffer@
    }

    /// All bytes accepted for delivery since the connection opened.
    pub closed spec fn submitted(&self) -> Seq<u8> {
        self.submitted_bytes@
    }

    /// Bytes the socket has taken so far, in order.
    pub closed spec fn sent(&self) -> Seq<u8> {
        self.sent_bytes@
    }

    /// Bytes are pending: the socket refused or only partly took a write.
    pub closed spec fn is_pending(&self) -> bool {
        self.is_pending_flag
    }

    /// The connection is to be closed once the pending buffer drains.
    pub closed spec fn close_oncomplete(&self) -> bool {
        self.close_oncomplete_flag
    }

    /// The connection is closed; all further writes are refused.
    pub closed spec fn is_closed(&self) -> bool {
        self.is_closed_flag
    }

    /// An asynchronous completion was signalled and not yet delivered.
    pub closed spec fn async_complete_pending(&self) -> bool {
        self.async_complete_flag
    }

    /// While the connection is open, every submitted byte is either already
    /// with the socket or still buffered, in order; and a clear pending flag
    /// means an empty buffer.
    pub open spec fn wf(&self) -> bool {
        !self.is_closed() ==> {
            &&& self.submitted() == self.sent() + self.buffered()
            &&& !self.is_pending() ==> self.buffered().len() == 0
        }
    }

    /// A fresh status: nothing buffered, no flags set.
    pub fn new() -> (r: Self)
        ensures
            r.wf(),
            !r.is_pending(),
            !r.close_oncomplete(),
            !r.is_closed(),
            !r.async_complete_pending(),
            r.buffered().len() == 0,
            r.submitted().len() == 0,
            r.sent().len() == 0,
    {
        Self {
            write_buffer: Vec::new(),
            is_pending_flag: false,
            close_oncomplete_flag: false,
            is_closed_flag: false,
            async_complete_flag: false,
            submitted_bytes: Ghost(Seq::empty()),
            sent_bytes: Ghost(Seq::empty()),
        }
    }

    /// Exec view of the closed flag.
    pub fn closed_now(&self) -> (r: bool)
        ensures
            r == self.is_closed(),
    {
        self.is_closed_flag
    }

    /// Exec view of the pending flag.
    pub fn pending_now(&self) -> (r: bool)
        ensures
            r == self.is_pending(),
    {
        self.is_pending_flag
    }

    /// First half of a write from any thread: refuse if closed, queue if
    /// pending, otherwise direct the caller to write to the socket now.
    pub fn begin_write(&mut self, data: &[u8]) -> (r: WriteDecision)
        requires
            old(self).wf(),
        ensures
            final(self).wf(),
            old(self).is_closed() ==> r == WriteDecision::Closed && *final(self) == *old(self),
            !old(self).is_closed() && old(self).is_pending() ==> {
                &&& r == WriteDecision::Buffered
                &&& final(self).buffered() == old(self).buffered() + data@
                &&& final(self).submitted() == old(self).submitted() + data@
                &&& final(self).sent() == old(self).sent()
                &&& final(self).is_pending() && !final(self).is_closed()
                &&& final(self).close_oncomplete() == old(self).close_oncomplete()
                &&& final(self).async_complete_pending() == old(self).async_complete_pending()
            },
            !old(self).is_closed() && !old(self).is_pending() ==> r == WriteDecision::WriteNow
                && *final(self) == *old(self),
    {
        if self.is_closed_flag {
            WriteDecision::Closed
        } else if self.is_pending_flag {
            self.write_buffer.extend_from_slice(data);
            proof {
                self.submitted_bytes@ = self.submitted_bytes@ + data@;
                assert(self.submitted_bytes@ =~= self.sent_bytes@ + self.write_buffer@);
            }
            WriteDecision::Buffered
        } else {
            WriteDecision::WriteNow
        }
    }

    /// Second half of a direct write: account for what the socket took and
    /// queue the rest. `Complete` when everything went out, `Notify` when
    /// bytes remain queued (wake the owning worker) — a partial write,
    /// including one of zero bytes, buffers the untaken remainder — and
    /// `Error` on a real failure (nothing is queued and nothing is
    /// accounted).
    pub fn finish_write(&mut self, data: &[u8], os: OsWriteResult) -> (r: WriteOutcome)
        requires
            old(self).wf(),
            !old(self).is_closed(),
            !old(self).is_pending(),
            data@.len() > 0,
            os matches OsWriteResult::Written(n) ==> n <= data@.len(),
        ensures
            final(self).wf(),
            !final(self).is_closed(),
            final(self).close_oncomplete() == old(self).close_oncomplete(),
            final(self).async_complete_pending() == old(self).async_complete_pending(),
            match os {
                OsWriteResult::Written(n) => {
                    if n == data@.len() {
                        &&& r == WriteOutcome::Complete
                        &&& final(self).sent() == old(self).sent() + data@
                        &&& final(self).submitted() == old(self).submitted() + data@
                        &&& final(self).buffered().len() == 0
                        &&& !final(self).is_pending()
                    } else {
                        &&& r == WriteOutcome::Notify
                        &&& final(self).sent() == old(self).sent() + data@.take(n as int)
                        &&& final(self).submitted() == old(self).submitted() + data@
                        &&& final(self).buffered() == data@.skip(n as int)
                        &&& final(self).is_pending()
                    }
                },
                OsWriteResult::WouldBlock => {
                    &&& r == WriteOutcome::Notify
                    &&& final(self).sent() == old(self).sent()
                    &&& final(self).submitted() == old(self).submitted() + data@
                    &&& final(self).buffered() == data@
                    &&& final(self).is_pending()
                },
                OsWriteResult::Failed => r == WriteOutcome::Error && *final(self) == *old(self),
            },
    {
        match os {
            OsWriteResult::Written(n) => {
                if n == data.len() {
                    proof {
                        self.sent_bytes@ = self.sent_bytes@ + data@;
                        self.submitted_bytes@ = self.submitted_bytes@ + data@;
                        assert(self.submitted_bytes@ =~= self.sent_bytes@ + self.write_buffer@);
                    }
                    WriteOutcome::Complete
                } else {
                    self.is_pending_flag = true;
                    self.write_buffer.extend_from_slice(&data[n..data.len()]);
                    proof {
                        self.sent_bytes@ = self.sent_bytes@ + data@.take(n as int);
                        self.submitted_bytes@ = self.submitted_bytes@ + data@;
                        assert(self.write_buffer@ =~= data@.skip(n as int));
                        assert(self.submitted_bytes@ =~= self.sent_bytes@ + self.write_buffer@);
                    }
                    WriteOutcome::Notify
                }
            },
            OsWriteResult::WouldBlock => {
                self.is_pending_flag = true;
                self.write_buffer.extend_from_slice(data);
                proof {
                    self.submitted_bytes@ = self.submitted_bytes@ + data@;
                    assert(self.write_buffer@ =~= data@);
                    assert(self.submitted_bytes@ =~= self.sent_bytes@ + self.write_buffer@);
                }
                WriteOutcome::Notify
            },
            OsWriteResult::Failed => WriteOutcome::Error,
        }
    }

    /// The queued bytes, for the worker to hand to the socket.
    pub fn pending_data(&self) -> (r: &Vec<u8>)
        ensures
            r@ == self.buffered(),
    {
        &self.write_buffer
    }

    /// Account for one drain-side socket write over the queued bytes and
    /// classify it: taken bytes leave the queue in order, a would-block
    /// return pauses the drain, a real error asks for a close.
    pub fn apply_os_write(&mut self, os: OsWriteResult) -> (r: WriteResult)
        requires
            old(self).wf(),
            !old(self).is_closed(),
            old(self).buffered().len() > 0,
            os matches OsWriteResult::Written(n) ==> n <= old(self).buffered().len(),
        ensures
            final(self).wf(),
            !final(self).is_closed(),
            final(self).is_pending() == old(self).is_pending(),
            final(self).close_oncomplete() == old(self).close_oncomplete(),
            final(self).async_complete_pending() == old(self).async_complete_pending(),
            final(self).submitted() == old(self).submitted(),
            match os {
                OsWriteResult::Written(n) => {
                    &&& r == WriteResult::Wrote
                    &&& final(self).sent() == old(self).sent() + old(self).buffered().take(n as int)
                    &&& final(self).buffered() == old(self).buffered().skip(n as int)
                },
                OsWriteResult::WouldBlock => r == WriteResult::Blocked && *final(self) == *old(self),
                OsWriteResult::Failed => r == WriteResult::Failed && *final(self) == *old(self),
            },
    {
        match os {
            OsWriteResult::Written(n) => {
                if n == self.write_buffer.len() {
                    proof {
                        self.sent_bytes@ = self.sent_bytes@ + self.write_buffer@.take(n as int);
                        assert(self.write_buffer@.take(n as int) == self.write_buffer@);
                        assert(self.write_buffer@.skip(n as int) == Seq::<u8>::empty());
                    }
                    self.write_buffer.clear();
                } else {
                    proof {
                        self.sent_bytes@ = self.sent_bytes@ + self.write_buffer@.take(n as int);
                    }
                    let tail = self.write_buffer.split_off(n);
                    self.write_buffer = tail;
                }
                proof {
                    assert(self.submitted_bytes@ =~= self.sent_bytes@ + self.write_buffer@);
                }
                WriteResult::Wrote
            },
            OsWriteResult::WouldBlock => WriteResult::Blocked,
            OsWriteResult::Failed => WriteResult::Failed,
        }
    }

    /// The drain finished: clear the pending flag and say whether a deferred
    /// close is now due.
    pub fn drain_complete_action(&mut self) -> (r: DrainDone)
        requires
            old(self).wf(),
            !old(self).is_closed(),
            old(self).buffered().len() == 0,
        ensures
            final(self).wf(),
            !final(self).is_pending(),
            !final(self).is_closed(),
            final(self).buffered().len() == 0,
            final(self).submitted() == old(self).submitted(),
            final(self).sent() == old(self).sent(),
            final(self).close_oncomplete() == old(self).close_oncomplete(),
            final(self).async_complete_pending() == old(self).async_complete_pending(),
            r == DrainDone::Close <==> old(self).close_oncomplete(),
    {
        self.is_pending_flag = false;
        if self.close_oncomplete_flag {
            DrainDone::Close
        } else {
            DrainDone::RearmRead
        }
    }

    /// A foreign thread asks for the connection to close once pending writes
    /// finish. Refused if already closed; otherwise the caller wakes the
    /// owning worker.
    pub fn request_close(&mut self) -> (r: Result<(), Error>)
        requires
            old(self).wf(),
        ensures
            final(self).wf(),
            old(self).is_closed() ==> r == Result::<(), Error>::Err(Error::ConnectionClosedError)
                && *final(self) == *old(self),
            !old(self).is_closed() ==> {
                &&& r is Ok
                &&& final(self).close_oncomplete()
                &&& !final(self).is_closed()
                &&& final(self).is_pending() == old(self).is_pending()
                &&& final(self).buffered() == old(self).buffered()
                &&& final(self).submitted() == old(self).submitted()
                &&& final(self).sent() == old(self).sent()
                &&& final(self).async_complete_pending() == old(self).async_complete_pending()
            },
    {
        if self.is_closed_flag {
            Err(Error::ConnectionClosedError)
        } else {
            self.close_oncomplete_flag = true;
            Ok(())
        }
    }

    /// A foreign thread signals that an asynchronous operation finished.
    /// Refused if already closed; otherwise the caller wakes the owning
    /// worker, which will deliver a zero-length read callback.
    pub fn request_async_complete(&mut self) -> (r: Result<(), Error>)
        requires
            old(self).wf(),
        ensures
            final(self).wf(),
            old(self).is_closed() ==> r == Result::<(), Error>::Err(Error::ConnectionClosedError)
                && *final(self) == *old(self),
            !old(self).is_closed() ==> {
                &&& r is Ok
                &&& final(self).async_complete_pending()
                &&& !final(self).is_closed()
                &&& final(self).is_pending() == old(self).is_pending()
                &&& final(self).buffered() == old(self).buffered()
                &&& final(self).submitted() == old(self).submitted()
                &&& final(self).sent() == old(self).sent()
                &&& final(self).close_oncomplete() == old(self).close_oncomplete()
            },
    {
        if self.is_closed_flag {
            Err(Error::ConnectionClosedError)
        } else {
            self.async_complete_flag = true;
            Ok(())
        }
    }

    /// Read and clear the async-complete flag, as the worker's write-queue
    /// pass does.
    pub fn take_async_complete(&mut self) -> (r: bool)
        requires
            old(self).wf(),
        ensures
            final(self).wf(),
            r == old(self).async_complete_pending(),
            !final(self).async_complete_pending(),
            final(self).is_pending() == old(self).is_pending(),
            final(self).is_closed() == old(self).is_closed(),
            final(self).close_oncomplete() == old(self).close_oncomplete(),
            final(self).buffered() == old(self).buffered(),
            final(self).submitted() == old(self).submitted(),
            final(self).sent() == old(self).sent(),
    {
        let ret = self.async_complete_flag;
        self.async_complete_flag = false;
        ret
    }

    /// The close path marks the status closed and discards the queue; no
    /// handle may be written through it again.
    pub fn mark_closed(&mut self)
        ensures
            final(self).wf(),
            final(self).is_closed(),
            final(self).buffered().len() == 0,
    {
        self.is_closed_flag = true;
        self.write_buffer.clear();
    }
}

/// While a connection is open, the bytes accepted for delivery are exactly
/// the bytes the socket has taken followed by the bytes still queued, in
/// submission order; in particular, once the queue is empty the socket has
/// taken exactly what was submitted, in order.
pub proof fn lemma_ordered_delivery(st: WriteStatus)
    requires
        st.wf(),
        !st.is_closed(),
    ensures
        st.submitted() == st.sent() + st.buffered(),
        st.buffered().len() == 0 ==> st.submitted() == st.sent(),
{
    assert(st.buffered().len() == 0 ==> st.submitted() =~= st.sent());
}

} // verus!
