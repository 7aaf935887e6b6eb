use vstd::prelude::*;

verus! {

/// Milliseconds between two liveness polls of a signalled child.
pub const POLL_INTERVAL_MS: u64 = 100;

/// Number of liveness polls making up the grace window.
pub const GRACE_POLLS: u32 = 50;

/// Phases of the per-child interrupt guard, in the order they are passed:
/// armed while the child runs undisturbed, forwarding after an interrupt was
/// passed on, escalated once the forceful kill was sent, and disarmed when the
/// guard is torn down.
#[derive(Debug, Clone, Copy, PartialEq, Eq, Structural)]
pub enum GuardPhase {
    Armed,
    Forwarding,
    Escalated,
    Disarmed,
}

/// What the caller must do after a guard transition.
#[derive(Debug, Clone, Copy, PartialEq, Eq, Structural)]
pub enum GuardAction {
    /// Send the graceful termination signal to the child.
    SendTerm,
    /// Sleep one poll interval, then poll the child again.
    KeepWaiting,
    /// As `KeepWaiting`, after telling the user how many seconds of the grace
    /// window remain.
    Notice(u32),
    /// The grace window is over: send the forceful kill signal.
    SendKill,
    /// The child is gone; tear the guard down.
    Disarm,
}

/// The guard installed around one interactive child. `elapsed_ms` is the
/// modeled clock: it counts one poll interval for every poll taken since the
/// interrupt was received, and one more for the pause before the forceful
/// kill, mirroring a caller that sleeps one interval before each poll and
/// before the kill.
pub struct SignalGuard {
    pub phase: GuardPhase,
    pub polls_done: u32,
    pub elapsed_ms: u64,
}

impl SignalGuard {
    pub open spec fn wf(&self) -> bool {
        &&& self.polls_done <= GRACE_POLLS
        &&& match self.phase {
            GuardPhase::Armed => self.polls_done == 0 && self.elapsed_ms == 0,
            GuardPhase::Forwarding => self.elapsed_ms == (POLL_INTERVAL_MS as int) * (
            self.polls_done as int),
            GuardPhase::Escalated => self.polls_done == GRACE_POLLS && self.elapsed_ms == (
            POLL_INTERVAL_MS as int) * (GRACE_POLLS as int + 1),
            GuardPhase::Disarmed => true,
        }
    }

    /// Installs the guard for one freshly spawned child.
    pub fn arm() -> (r: Self)
        ensures
            r.wf(),
            r.phase == GuardPhase::Armed,
    {
        SignalGuard { phase: GuardPhase::Armed, polls_done: 0, elapsed_ms: 0 }
    }

    /// An interrupt reached the parent: the termination signal is forwarded
    /// and the grace window opens.
    pub fn on_interrupt(&mut self) -> (r: GuardAction)
        requires
            old(self).wf(),
            old(self).phase == GuardPhase::Armed,
        ensures
            final(self).wf(),
            final(self).phase == GuardPhase::Forwarding,
            final(self).polls_done == 0,
            final(self).elapsed_ms == 0,
            r == GuardAction::SendTerm,
    {
        self.phase = GuardPhase::Forwarding;
        GuardAction::SendTerm
    }

    /// One liveness poll, taken one poll interval after the previous step.
    /// A dead child disarms the guard; a live child either keeps the window
    /// open (with a notice once a second) or, at the window's end, draws the
    /// forceful kill.
    pub fn on_poll(&mut self, child_alive: bool) -> (r: GuardAction)
        requires
            old(self).wf(),
            old(self).phase == GuardPhase::Forwarding,
            old(self).polls_done < GRACE_POLLS,
        ensures
            final(self).wf(),
            !child_alive ==> final(self).phase == GuardPhase::Disarmed && r
                == GuardAction::Disarm,
            child_alive && old(self).polls_done + 1 < GRACE_POLLS ==> {
                &&& final(self).phase == GuardPhase::Forwarding
                &&& final(self).polls_done == old(self).polls_done + 1
                &&& final(self).elapsed_ms == old(self).elapsed_ms + POLL_INTERVAL_MS
                &&& r == if (old(self).polls_done + 1) % 10 == 0 {
                    GuardAction::Notice(((GRACE_POLLS - (old(self).polls_done + 1)) / 10) as u32)
                } else {
                    GuardAction::KeepWaiting
                }
            },
            child_alive && old(self).polls_done + 1 == GRACE_POLLS ==> {
                &&& final(self).phase == GuardPhase::Escalated
                &&& final(self).elapsed_ms == old(self).elapsed_ms + 2 * POLL_INTERVAL_MS
                &&& r == GuardAction::SendKill
            },
    {
        if !child_alive {
            self.phase = GuardPhase::Disarmed;
            return GuardAction::Disarm;
        }
        let k = self.polls_done + 1;
        self.polls_done = k;
        if k == GRACE_POLLS {
            self.elapsed_ms = self.elapsed_ms + 2 * POLL_INTERVAL_MS;
            self.phase = GuardPhase::Escalated;
            GuardAction::SendKill
        } else {
            self.elapsed_ms = self.elapsed_ms + POLL_INTERVAL_MS;
            if k % 10 == 0 {
                GuardAction::Notice((GRACE_POLLS - k) / 10)
            } else {
                GuardAction::KeepWaiting
            }
        }
    }

    /// Tears the guard down once the wait on the child has completed; the
    /// guard is inert afterwards.
    pub fn disarm(&mut self)
        requires
            old(self).wf(),
        ensures
            final(self).wf(),
            final(self).phase == GuardPhase::Disarmed,
            final(self).elapsed_ms == old(self).elapsed_ms,
    {
        self.phase = GuardPhase::Disarmed;
    }
}

/// A child that ignores the graceful termination signal is sent the forceful
/// kill no earlier than five seconds and no later than 5.2 seconds after the
/// interrupt was received.
pub proof fn lemma_escalation_window(g: SignalGuard)
    requires
        g.wf(),
        g.phase == GuardPhase::Escalated,
    ensures
        5000 <= g.elapsed_ms <= 5200,
{
}

} // verus!
