//! The fixed-cadence sampling loop, as decisions from state and event to next state and action.
use crate::axis::ConfigError;
use vstd::prelude::*;

verus! {

/// Fast ticks per slow tick in the shipped firmware.
pub const DEFAULT_CADENCE: u64 = 1000;

/// What the loop does on one fast tick, besides servicing the transport.
#[derive(Clone, Copy, Debug, PartialEq, Eq, Structural)]
pub enum TickAction {
    /// Only service the transport.
    ServiceOnly,
    /// Read buttons, then axes, encode one report and try to send it.
    SampleAndSend,
}

/// Result of one attempt to send a report.
#[derive(Clone, Copy, Debug, PartialEq, Eq, Structural)]
pub enum SendOutcome {
    /// The report went out.
    Sent,
    /// The endpoint was busy; the report is dropped, not queued.
    WouldBlock,
    /// The transport failed otherwise.
    Failed,
}

/// Last known transport health, for a diagnostic indicator.
#[derive(Clone, Copy, Debug, PartialEq, Eq, Structural)]
pub enum LinkHealth {
    Healthy,
    Faulted,
}

/// Fast-tick counter and cadence of the sampling loop.
#[derive(Clone, Copy, Debug)]
pub struct Scheduler {
    tick: u64,
    cadence: u64,
    health: LinkHealth,
}

impl Scheduler {
    #[verifier::type_invariant]
    spec fn positive_cadence(self) -> bool {
        self.cadence > 0
    }

    /// Fast ticks counted so far (modulo `2^64`).
    pub closed spec fn counter(self) -> u64 {
        self.tick
    }

    /// Fast ticks per slow tick.
    pub closed spec fn period(self) -> u64 {
        self.cadence
    }

    /// Transport health after the last send attempt that was not simply busy.
    pub closed spec fn link(self) -> LinkHealth {
        self.health
    }

    /// The scheduler after one more fast tick.
    pub closed spec fn ticked(self) -> Scheduler {
        Scheduler { tick: if self.tick == u64::MAX { 0 } else { (self.tick + 1) as u64 }, ..self }
    }

    /// What the loop does on the tick that brought the counter to its current value.
    pub open spec fn action(self) -> TickAction {
        if self.counter() % self.period() == 0 {
            TickAction::SampleAndSend
        } else {
            TickAction::ServiceOnly
        }
    }

    /// The scheduler after `n` more fast ticks.
    pub open spec fn advanced(self, n: nat) -> Scheduler
        decreases n,
    {
        if n == 0 {
            self
        } else {
            self.advanced((n - 1) as nat).ticked()
        }
    }

    /// One more tick adds one to the counter, wrapping at `2^64`, and keeps the cadence.
    pub proof fn lemma_ticked(self)
        ensures
            self.ticked().counter() == (self.counter() + 1) % 0x1_0000_0000_0000_0000,
            self.ticked().period() == self.period(),
            self.ticked().link() == self.link(),
    {
    }

    /// A scheduler at counter `0` with the given cadence; a cadence of `0` is rejected.
    pub fn new(cadence: u64) -> (r: Result<Scheduler, ConfigError>)
        ensures
            cadence == 0 <==> r is Err,
            r matches Err(e) ==> e == ConfigError::InvalidConfiguration,
            r matches Ok(s) ==> s.counter() == 0 && s.period() == cadence && s.link() == LinkHealth::Healthy,
    {
        if cadence == 0 {
            Err(ConfigError::InvalidConfiguration)
        } else {
            Ok(Scheduler { tick: 0, cadence, health: LinkHealth::Healthy })
        }
    }

    /// Fast ticks counted so far.
    pub fn ticks(&self) -> (r: u64)
        ensures
            r == self.counter(),
    {
        self.tick
    }

    /// Fast ticks per slow tick.
    pub fn cadence(&self) -> (r: u64)
        ensures
            r == self.period(),
            r > 0,
    {
        proof {
            use_type_invariant(self);
        }
        self.cadence
    }

    /// Transport health for the diagnostic indicator.
    pub fn health(&self) -> (r: LinkHealth)
        ensures
            r == self.link(),
    {
        self.health
    }

    /// Counts one fast tick and says whether this one samples and sends: exactly
    /// when the new counter is a multiple of the cadence.
    pub fn tick(&mut self) -> (r: TickAction)
        ensures
            *final(self) == old(self).ticked(),
            r == final(self).action(),
    {
        proof {
            use_type_invariant(&*self);
        }
        self.tick = if self.tick == u64::MAX {
            0
        } else {
            self.tick + 1
        };
        if self.tick % self.cadence == 0 {
            TickAction::SampleAndSend
        } else {
            TickAction::ServiceOnly
        }
    }

    /// Takes note of a send attempt: success clears a fault, a busy endpoint
    /// changes nothing, any other failure marks the link faulted. The loop goes on
    /// in every case.
    pub fn record_send(&mut self, outcome: SendOutcome)
        ensures
            final(self).counter() == old(self).counter(),
            final(self).period() == old(self).period(),
            final(self).link() == match outcome {
                SendOutcome::Sent => LinkHealth::Healthy,
                SendOutcome::WouldBlock => old(self).link(),
                SendOutcome::Failed => LinkHealth::Faulted,
            },
    {
        proof {
            use_type_invariant(&*self);
        }
        match outcome {
            SendOutcome::Sent => self.health = LinkHealth::Healthy,
            SendOutcome::WouldBlock => {},
            SendOutcome::Failed => self.health = LinkHealth::Faulted,
        }
    }
}

/// From a counter of `0`, after `n` fast ticks the counter is `n`, and the
/// `n`-th tick samples exactly when `n` is a multiple of the cadence: at
/// `c, 2c, 3c, ...` and never one tick off.
pub proof fn lemma_cadence(s: Scheduler, n: nat)
    requires
        s.counter() == 0,
        s.period() > 0,
        n < 0x1_0000_0000_0000_0000,
    ensures
        s.advanced(n).counter() == n,
        s.advanced(n).period() == s.period(),
        n > 0 ==> (s.advanced(n).action() == TickAction::SampleAndSend <==> (n as int) % (s.period() as int) == 0),
    decreases n,
{
    if n > 0 {
        lemma_cadence(s, (n - 1) as nat);
        s.advanced((n - 1) as nat).lemma_ticked();
    }
}

} // verus!
