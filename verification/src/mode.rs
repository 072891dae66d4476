//! The restart-policy signalling cell.
//!
//! One cell exists per managed process. The asynchronous shell holds it behind
//! an atomic word plus a notification channel; this module is the verified
//! model of that cell: the value it carries, the wakeup permit of the
//! notification channel, and the exact effect of every operation on the pair.

use vstd::prelude::*;

verus! {

/// Restart policy for one managed process.
#[derive(Clone, Copy, Debug, PartialEq, Eq, Structural)]
pub enum Mode {
    Once,
    Repeat,
    Stop,
}

/// The fixed-width word that stands for each mode in the shared atomic cell.
pub open spec fn spec_encode(m: Mode) -> u32 {
    match m {
        Mode::Once => 0,
        Mode::Repeat => 1,
        Mode::Stop => 2,
    }
}

/// Checked reading of a stored word: out-of-range words decode to `None`.
pub open spec fn spec_decode(v: u32) -> Option<Mode> {
    if v == 0 {
        Some(Mode::Once)
    } else if v == 1 {
        Some(Mode::Repeat)
    } else if v == 2 {
        Some(Mode::Stop)
    } else {
        None
    }
}

impl Mode {
    /// Fixed-width encoding of the mode, for storage in an atomic word.
    pub fn encode(&self) -> (r: u32)
        ensures
            r == spec_encode(*self),
    {
        match self {
            Mode::Once => 0,
            Mode::Repeat => 1,
            Mode::Stop => 2,
        }
    }

    /// Checked decoding: an out-of-range word is rejected, never reinterpreted.
    pub fn decode(v: u32) -> (r: Option<Mode>)
        ensures
            r == spec_decode(v),
    {
        if v == 0 {
            Some(Mode::Once)
        } else if v == 1 {
            Some(Mode::Repeat)
        } else if v == 2 {
            Some(Mode::Stop)
        } else {
            None
        }
    }
}

/// Decoding inverts encoding: no mode is lost in the atomic word.
pub proof fn lemma_mode_round_trip(m: Mode)
    ensures
        spec_decode(spec_encode(m)) == Some(m),
{
}

/// A predicate over modes, given by its value on each of the three modes.
#[derive(Clone, Copy, Debug, PartialEq, Eq, Structural)]
pub struct ModePred {
    pub on_once: bool,
    pub on_repeat: bool,
    pub on_stop: bool,
}

impl ModePred {
    /// Whether the predicate holds of `m`.
    pub open spec fn holds(self, m: Mode) -> bool {
        match m {
            Mode::Once => self.on_once,
            Mode::Repeat => self.on_repeat,
            Mode::Stop => self.on_stop,
        }
    }

    pub fn eval(&self, m: Mode) -> (r: bool)
        ensures
            r == self.holds(m),
    {
        match m {
            Mode::Once => self.on_once,
            Mode::Repeat => self.on_repeat,
            Mode::Stop => self.on_stop,
        }
    }

    /// The predicate the supervisor waits on before a run: any mode but `Stop`.
    pub fn not_stop() -> (r: ModePred)
        ensures
            r == (ModePred { on_once: true, on_repeat: true, on_stop: false }),
            forall|m: Mode| r.holds(m) <==> m != Mode::Stop,
    {
        ModePred { on_once: true, on_repeat: true, on_stop: false }
    }

    /// The predicate raced against a running child: the mode is `Stop`.
    pub fn is_stop() -> (r: ModePred)
        ensures
            r == (ModePred { on_once: false, on_repeat: false, on_stop: true }),
            forall|m: Mode| r.holds(m) <==> m == Mode::Stop,
    {
        ModePred { on_once: false, on_repeat: false, on_stop: true }
    }
}

/// The restart-policy cell: the mode it holds, and the wakeup permit of its
/// notification channel. The permit is raised exactly when a waiter — one
/// already blocked, or the next one to register — is owed a wakeup.
#[derive(Clone, Copy, Debug, PartialEq, Eq, Structural)]
pub struct ModeCell {
    pub mode: Mode,
    pub pending: bool,
}

/// Effect of an unconditional `send`: the value is replaced, and the permit is
/// raised only when the value actually changed.
pub open spec fn send_spec(c: ModeCell, m: Mode) -> ModeCell {
    ModeCell { mode: m, pending: c.pending || c.mode != m }
}

/// Effect and answer of a compare-and-swap: on a match the cell takes `new`
/// (raising the permit on a change) and answers `new`; otherwise the cell is
/// untouched and the answer is the value actually held.
pub open spec fn cas_spec(c: ModeCell, current: Mode, new: Mode) -> (ModeCell, Mode) {
    if c.mode == current {
        (ModeCell { mode: new, pending: c.pending || current != new }, new)
    } else {
        (c, c.mode)
    }
}

/// Answer of one check of the wait loop: the held value when the predicate
/// accepts it, `None` when the waiter must suspend.
pub open spec fn wait_outcome(c: ModeCell, pred: ModePred) -> Option<Mode> {
    if pred.holds(c.mode) {
        Some(c.mode)
    } else {
        None
    }
}

/// Cell left behind by one check of the wait loop: a suspending waiter
/// consumes the stored permit before it parks.
pub open spec fn wait_after(c: ModeCell, pred: ModePred) -> ModeCell {
    if pred.holds(c.mode) {
        c
    } else {
        ModeCell { mode: c.mode, pending: false }
    }
}

impl ModeCell {
    pub fn new(init: Mode) -> (r: ModeCell)
        ensures
            r == (ModeCell { mode: init, pending: false }),
    {
        ModeCell { mode: init, pending: false }
    }

    /// Unconditionally set the mode. The permit is raised only on a change:
    /// re-sending the active mode is a no-op for waiters.
    pub fn send(&mut self, m: Mode)
        ensures
            *final(self) == send_spec(*old(self), m),
            old(self).mode == m ==> *final(self) == *old(self),
    {
        if self.mode != m {
            self.mode = m;
            self.pending = true;
        }
    }

    /// If the cell holds `current`, replace it by `new` and answer `new`;
    /// otherwise leave the cell untouched and answer the value actually held.
    pub fn compair_exchange(&mut self, current: Mode, new: Mode) -> (r: Mode)
        ensures
            (*final(self), r) == cas_spec(*old(self), current, new),
            old(self).mode == current ==> final(self).mode == new && r == new,
            old(self).mode != current ==> *final(self) == *old(self) && r == old(self).mode,
    {
        if self.mode == current {
            if current != new {
                self.pending = true;
            }
            self.mode = new;
            new
        } else {
            self.mode
        }
    }

    /// The current value, observed without blocking.
    pub fn get(&self) -> (r: Mode)
        ensures
            r == self.mode,
    {
        self.mode
    }

    /// One check of the wait loop. A waiter whose predicate accepts the held
    /// value returns it at once; otherwise the waiter consumes the stored
    /// permit and suspends until the next send that changes the value.
    pub fn poll_wait(&mut self, pred: ModePred) -> (r: Option<Mode>)
        ensures
            r == wait_outcome(*old(self), pred),
            *final(self) == wait_after(*old(self), pred),
            r matches Some(m) ==> pred.holds(m) && m == old(self).mode,
    {
        let m = self.mode;
        if pred.eval(m) {
            Some(m)
        } else {
            self.pending = false;
            None
        }
    }
}

/// Idempotent send: re-sending the active mode leaves the cell bit-for-bit
/// unchanged, so no waiter — whatever predicate it blocks on — observes a
/// spurious wakeup.
pub proof fn lemma_send_idempotent(c: ModeCell, pred: ModePred)
    ensures
        send_spec(c, c.mode) == c,
        wait_outcome(send_spec(c, c.mode), pred) == wait_outcome(c, pred),
{
}

/// A change of value around a blocked or registering waiter always leaves the
/// wakeup permit raised: the change cannot be missed, wherever between a failed
/// check and parking the waiter stands.
pub proof fn lemma_no_missed_wakeup(c: ModeCell, pred: ModePred, m: Mode)
    requires
        !pred.holds(c.mode),
        m != c.mode,
    ensures
        send_spec(c, m).pending,
{
}

/// A waiter re-checked after a send that establishes its predicate returns
/// exactly the sent value: one notification cycle suffices.
pub proof fn lemma_wait_wakes(c: ModeCell, pred: ModePred, m: Mode)
    requires
        pred.holds(m),
    ensures
        wait_outcome(send_spec(c, m), pred) == Some(m),
{
}

/// `compair_exchange(Once, Stop)` succeeds exactly when the cell holds `Once`;
/// on `Repeat` or `Stop` the cell is untouched and the held value is answered.
pub proof fn lemma_cas_once_stop(c: ModeCell)
    ensures
        c.mode == Mode::Once ==> cas_spec(c, Mode::Once, Mode::Stop).0.mode == Mode::Stop
            && cas_spec(c, Mode::Once, Mode::Stop).1 == Mode::Stop,
        c.mode != Mode::Once ==> cas_spec(c, Mode::Once, Mode::Stop).0 == c
            && cas_spec(c, Mode::Once, Mode::Stop).1 == c.mode,
{
}

} // verus!
