//! The per-managed-process control loop, as a state machine over plain
//! events.
//!
//! The asynchronous shell performs the outside work — spawning the child,
//! awaiting its exit, killing it, persisting reports — and hands the result
//! of each step back as an event. Every decision — whether a run may begin,
//! what a completion does to the restart policy, which record a run leaves
//! behind — stands here.

use vstd::prelude::*;
use crate::mode::{Mode, ModeCell, ModePred, cas_spec, send_spec, wait_outcome, wait_after};
use crate::report::{Outcome, Process, RunRecord};

verus! {

/// Where the control loop of one managed process stands.
#[derive(Clone, Copy, Debug, PartialEq, Eq, Structural)]
pub enum SupState {
    /// Blocked until the mode leaves `Stop`.
    WaitingForRun,
    /// Cleared to launch the child.
    Spawning,
    /// The child is running.
    Running,
    /// Launching failed; this process is never retried.
    Done,
}

/// The predicate guarding a run: any mode but `Stop`.
pub open spec fn not_stop_pred() -> ModePred {
    ModePred { on_once: true, on_repeat: true, on_stop: false }
}

/// The control state of one managed process: its definition, its private
/// restart-policy cell, and where its loop stands. No state is shared
/// between two managed processes.
pub struct Supervisor {
    pub proc: Process,
    pub cell: ModeCell,
    pub state: SupState,
}

impl Supervisor {
    pub fn new(proc: Process, init: Mode) -> (r: Supervisor)
        ensures
            r.proc == proc,
            r.cell == (ModeCell { mode: init, pending: false }),
            r.state == SupState::WaitingForRun,
    {
        Supervisor { proc, cell: ModeCell::new(init), state: SupState::WaitingForRun }
    }

    /// One check of the barrier before a run: leaves the waiting state exactly
    /// when the mode is not `Stop`.
    pub fn try_begin(&mut self) -> (r: Option<Mode>)
        requires
            old(self).state == SupState::WaitingForRun,
        ensures
            r == wait_outcome(old(self).cell, not_stop_pred()),
            final(self).cell == wait_after(old(self).cell, not_stop_pred()),
            final(self).proc == old(self).proc,
            r is Some ==> final(self).state == SupState::Spawning && old(self).cell.mode
                != Mode::Stop,
            r is None ==> final(self).state == SupState::WaitingForRun && old(self).cell.mode
                == Mode::Stop,
    {
        let pred = ModePred::not_stop();
        match self.cell.poll_wait(pred) {
            Some(m) => {
                self.state = SupState::Spawning;
                Some(m)
            },
            None => None,
        }
    }

    /// The child was launched.
    pub fn on_spawned(&mut self)
        requires
            old(self).state == SupState::Spawning,
        ensures
            final(self).state == SupState::Running,
            final(self).cell == old(self).cell,
            final(self).proc == old(self).proc,
    {
        self.state = SupState::Running;
    }

    /// Launching failed: this loop ends for good; other managed processes
    /// are unaffected.
    pub fn on_spawn_failed(&mut self)
        requires
            old(self).state == SupState::Spawning,
        ensures
            final(self).state == SupState::Done,
            final(self).cell == old(self).cell,
            final(self).proc == old(self).proc,
    {
        self.state = SupState::Done;
    }

    /// The child ended on its own. A policy still at `Once` flips to `Stop`;
    /// an external decision already taken — `Repeat` or `Stop` — is preserved
    /// untouched. The run's record carries the completed outcome and the mode
    /// observed now.
    pub fn on_child_exit(&mut self, success: bool, exit_code: Option<i32>, stamp: String) -> (r:
        RunRecord)
        requires
            old(self).state == SupState::Running,
        ensures
            final(self).cell == cas_spec(old(self).cell, Mode::Once, Mode::Stop).0,
            final(self).state == SupState::WaitingForRun,
            final(self).proc == old(self).proc,
            r.outcome == (Outcome::Completed { success, exit_code }),
            r.mode == final(self).cell.mode,
            r.proc.executable@ == old(self).proc.executable@,
            r.proc.args.deep_view() == old(self).proc.args.deep_view(),
            r.stamp == stamp,
    {
        self.cell.compair_exchange(Mode::Once, Mode::Stop);
        self.state = SupState::WaitingForRun;
        let mode = self.cell.get();
        RunRecord {
            proc: self.proc.snapshot(),
            outcome: Outcome::Completed { success, exit_code },
            mode,
            stamp,
        }
    }

    /// The mode was seen at `Stop` while the child ran, and the child was
    /// killed at once. The run's record carries the killed outcome.
    pub fn on_killed(&mut self, stamp: String) -> (r: RunRecord)
        requires
            old(self).state == SupState::Running,
            old(self).cell.mode == Mode::Stop,
        ensures
            final(self).cell == old(self).cell,
            final(self).state == SupState::WaitingForRun,
            final(self).proc == old(self).proc,
            r.outcome == Outcome::Killed,
            r.mode == Mode::Stop,
            r.proc.executable@ == old(self).proc.executable@,
            r.proc.args.deep_view() == old(self).proc.args.deep_view(),
            r.stamp == stamp,
    {
        self.state = SupState::WaitingForRun;
        let mode = self.cell.get();
        RunRecord { proc: self.proc.snapshot(), outcome: Outcome::Killed, mode, stamp }
    }

    /// An external actor sets the restart policy through the write-only
    /// handle.
    pub fn set_mode(&mut self, m: Mode)
        ensures
            final(self).cell == send_spec(old(self).cell, m),
            final(self).state == old(self).state,
            final(self).proc == old(self).proc,
    {
        self.cell.send(m);
    }
}

/// A process whose policy stands at `Once` when its child exits naturally
/// settles: the completion flips the policy to `Stop`, and the barrier before
/// the next run stays closed — no further spawn occurs until an external
/// actor moves the mode.
pub proof fn lemma_once_settles(c: ModeCell)
    requires
        c.mode == Mode::Once,
    ensures
        cas_spec(c, Mode::Once, Mode::Stop).0.mode == Mode::Stop,
        wait_outcome(cas_spec(c, Mode::Once, Mode::Stop).0, not_stop_pred()) is None,
{
}

/// While the policy stands at `Stop`, the barrier before a run never opens.
pub proof fn lemma_stop_blocks(c: ModeCell)
    requires
        c.mode == Mode::Stop,
    ensures
        wait_outcome(c, not_stop_pred()) is None,
{
}

/// Under `Repeat`, a natural completion leaves the policy untouched and the
/// barrier opens again at once: each completed run is followed by exactly one
/// new spawn, for as long as the policy stands.
pub proof fn lemma_repeat_continues(c: ModeCell)
    requires
        c.mode == Mode::Repeat,
    ensures
        cas_spec(c, Mode::Once, Mode::Stop).0 == c,
        wait_outcome(cas_spec(c, Mode::Once, Mode::Stop).0, not_stop_pred()) == Some(Mode::Repeat),
{
}

/// The cell after one full run cycle: the waiting check that admitted the
/// run, then the compare-and-swap a natural completion applies.
pub open spec fn cycle_spec(c: ModeCell) -> ModeCell {
    cas_spec(wait_after(c, not_stop_pred()), Mode::Once, Mode::Stop).0
}

/// The cell after `n` full run cycles.
pub open spec fn cycles_spec(c: ModeCell, n: nat) -> ModeCell
    decreases n,
{
    if n == 0 {
        c
    } else {
        cycle_spec(cycles_spec(c, (n - 1) as nat))
    }
}

/// Under `Repeat`, any number of natural completions leaves the policy at
/// `Repeat`, and the waiting check before each run succeeds at once: `n`
/// completed cycles go with exactly `n` spawns, and each produces its one
/// record.
pub proof fn lemma_repeat_cycles(c: ModeCell, n: nat)
    requires
        c.mode == Mode::Repeat,
    ensures
        cycles_spec(c, n).mode == Mode::Repeat,
        wait_outcome(cycles_spec(c, n), not_stop_pred()) == Some(Mode::Repeat),
    decreases n,
{
    if n > 0 {
        lemma_repeat_cycles(c, (n - 1) as nat);
    }
}

} // verus!
