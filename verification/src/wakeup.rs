//! The cross-thread wakeup protocol: a worker about to block on its selector
//! and foreign threads that must be able to break it out of the wait.
//!
//! The shared state is two flags. `requested` says some thread asked for a
//! wakeup since the worker last woke. `needed` says the worker is inside (or
//! entering) a selector wait, so a wakeup must also put a byte on the
//! worker's self-pipe to interrupt it. A byte is written only when a wakeup
//! finds `needed` set and `requested` still clear: the first wakeup of a
//! wait interrupts the selector, later ones are already covered by the
//! request flag, so any number of wakeups during one wait put at most one
//! byte on the pipe. The byte write itself is a socket operation done by the
//! caller; `wakeup` decides it and the model accounts for it in
//! `pipe_bytes`.

use vstd::prelude::*;

verus! {

/// Ghost model of the wakeup state, including how many signal bytes are
/// sitting unread in the worker's self-pipe.
pub struct WakeupModel {
    /// The worker is in (or entering) a selector wait.
    pub needed: bool,
    /// A wakeup was requested since the worker last woke.
    pub requested: bool,
    /// Signal bytes written to the self-pipe and not yet drained.
    pub pipe_bytes: nat,
}

/// One `wakeup` call: the request flag is set, and a byte goes onto the
/// pipe exactly when the worker needed interrupting and no other wakeup had
/// already asked.
pub open spec fn step_wakeup(m: WakeupModel) -> WakeupModel {
    WakeupModel {
        needed: m.needed,
        requested: true,
        pipe_bytes: m.pipe_bytes + if m.needed && !m.requested {
            1nat
        } else {
            0nat
        },
    }
}

/// One `pre_block` call: the worker announces the coming wait.
pub open spec fn step_pre_block(m: WakeupModel) -> WakeupModel {
    WakeupModel { needed: true, requested: m.requested, pipe_bytes: m.pipe_bytes }
}

/// One `post_block` call: the worker is awake again and both flags clear.
pub open spec fn step_post_block(m: WakeupModel) -> WakeupModel {
    WakeupModel { needed: false, requested: false, pipe_bytes: m.pipe_bytes }
}

/// `n` consecutive `wakeup` calls.
pub open spec fn iter_wakeup(m: WakeupModel, n: nat) -> WakeupModel
    decreases n,
{
    if n == 0 {
        m
    } else {
        step_wakeup(iter_wakeup(m, (n - 1) as nat))
    }
}

/// What the worker's sleep depends on: the request flag it reads at
/// `pre_block`, and whether the pipe holds a byte that would end the wait.
pub open spec fn sleep_observable(m: WakeupModel) -> (bool, bool) {
    (m.requested, m.pipe_bytes > 0)
}

/// The wakeup flags of one worker.
pub struct Wakeup {
    needed: bool,
    requested: bool,
    pipe_bytes: Ghost<nat>,
}

impl View for Wakeup {
    type V = WakeupModel;

    closed spec fn view(&self) -> WakeupModel {
        WakeupModel {
            needed: self.needed,
            requested: self.requested,
            pipe_bytes: self.pipe_bytes@,
        }
    }
}

impl Wakeup {
    /// A fresh state: no wait in progress, nothing requested, empty pipe.
    pub fn new() -> (r: Self)
        ensures
            r@ == (WakeupModel { needed: false, requested: false, pipe_bytes: 0nat }),
    {
        Self { needed: false, requested: false, pipe_bytes: Ghost(0nat) }
    }

    /// A foreign thread asks the worker to wake. Returns whether the caller
    /// must now write one byte to the worker's self-pipe: only the first
    /// request of a wait does.
    pub fn wakeup(&mut self) -> (write_byte: bool)
        ensures
            final(self)@ == step_wakeup(old(self)@),
            write_byte == (old(self)@.needed && !old(self)@.requested),
    {
        let write_byte = self.needed && !self.requested;
        self.requested = true;
        proof {
            if write_byte {
                self.pipe_bytes@ = self.pipe_bytes@ + 1;
            }
        }
        write_byte
    }

    /// The worker, before blocking: reads the request flag and marks the
    /// wait as in progress. A true return means the coming wait must not
    /// sleep (its timeout is zero).
    pub fn pre_block(&mut self) -> (was_requested: bool)
        ensures
            final(self)@ == step_pre_block(old(self)@),
            was_requested == old(self)@.requested,
    {
        let was_requested = self.requested;
        self.needed = true;
        was_requested
    }

    /// The worker, after its wait returned: clears both flags.
    pub fn post_block(&mut self)
        ensures
            final(self)@ == step_post_block(old(self)@),
    {
        self.needed = false;
        self.requested = false;
    }

    /// The worker drained its self-pipe (a read event on the pipe's read
    /// end): no signal bytes remain.
    pub fn note_pipe_drained(&mut self)
        ensures
            final(self)@ == (WakeupModel {
                needed: old(self)@.needed,
                requested: old(self)@.requested,
                pipe_bytes: 0nat,
            }),
    {
        proof {
            self.pipe_bytes@ = 0nat;
        }
    }
}

/// Waking a worker is idempotent: a second `wakeup` call changes nothing —
/// not the flags, not the pipe.
pub proof fn lemma_wakeup_idempotent(m: WakeupModel)
    ensures
        step_wakeup(step_wakeup(m)) == step_wakeup(m),
        sleep_observable(step_wakeup(step_wakeup(m))) == sleep_observable(step_wakeup(m)),
{
}

/// How many signal bytes `n` wakeup calls leave on the pipe: none at all
/// while the worker is not waiting, and at most one — for the first call —
/// while it is.
pub proof fn lemma_wakeup_bytes(m: WakeupModel, n: nat)
    ensures
        iter_wakeup(m, n).pipe_bytes == m.pipe_bytes + if m.needed && !m.requested && n > 0 {
            1nat
        } else {
            0nat
        },
        n > 0 ==> iter_wakeup(m, n).requested,
        iter_wakeup(m, n).needed == m.needed,
    decreases n,
{
    if n > 0 {
        lemma_wakeup_bytes(m, (n - 1) as nat);
    }
}

/// Debouncing across one whole wait, starting from a drained pipe: however
/// many wakeups land between `pre_block` and `post_block`, at most one byte
/// is on the pipe when `post_block` completes.
pub proof fn lemma_wakeup_debounced(m: WakeupModel, n: nat)
    requires
        m.pipe_bytes == 0,
    ensures
        step_post_block(iter_wakeup(step_pre_block(m), n)).pipe_bytes <= 1,
{
    lemma_wakeup_bytes(step_pre_block(m), n);
}

/// The announced guarantee of the protocol: for a wakeup that lands after
/// `pre_block`, either the worker already observed the request flag when
/// `pre_block` returned it, or the wakeup puts a byte on the pipe, which
/// ends the wait.
pub proof fn lemma_wakeup_unblocks(m: WakeupModel)
    ensures
        m.requested || step_wakeup(step_pre_block(m)).pipe_bytes > m.pipe_bytes,
        step_wakeup(step_pre_block(m)).requested,
{
}

} // verus!
