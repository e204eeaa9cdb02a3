//! The game loop driver: a fixed-timestep clock and the loop that runs one
//! tick of the simulation per elapsed period until the game halts.

use crate::grid::Direction;
use crate::input::{frame_request, Key};
use crate::sim::{GameOverReason, GameState, Simulation, SimulationView, TickOutcome};
use vstd::prelude::*;

verus! {

/// The default tick period in microseconds.
pub const DEFAULT_TICK_MICROS: u64 = 80_000;

/// A fixed-timestep clock. It collects elapsed time and hands it out again in
/// whole periods; what is left over is carried to the next frame.
#[derive(Clone, Copy, Debug, PartialEq, Eq, Structural)]
pub struct TickClock {
    period: u64,
    carried: u64,
}

impl TickClock {
    /// Length of one tick in microseconds.
    pub closed spec fn spec_period(&self) -> int {
        self.period as int
    }

    /// Time collected that has not yet made up a whole period.
    pub closed spec fn spec_carried(&self) -> int {
        self.carried as int
    }

    /// The period is positive and less than one period is carried.
    pub open spec fn wf(&self) -> bool {
        0 <= self.spec_carried() < self.spec_period()
    }

    /// A clock with the given period that carries no time. The period must
    /// not be zero.
    pub fn new(period_micros: u64) -> (r: Option<TickClock>)
        ensures
            r.is_some() == (period_micros > 0),
            r matches Some(c) ==> c.wf() && c.spec_period() == period_micros && c.spec_carried()
                == 0,
    {
        if period_micros == 0 {
            None
        } else {
            Some(TickClock { period: period_micros, carried: 0 })
        }
    }

    pub fn period(&self) -> (p: u64)
        ensures
            p == self.spec_period(),
    {
        self.period
    }

    pub fn carried(&self) -> (c: u64)
        ensures
            c == self.spec_carried(),
    {
        self.carried
    }

    /// Adds `elapsed_micros` to the time carried and takes out the whole
    /// periods, whose number is returned.
    pub fn advance(&mut self, elapsed_micros: u64) -> (due: u64)
        requires
            old(self).wf(),
        ensures
            final(self).wf(),
            final(self).spec_period() == old(self).spec_period(),
            due == (old(self).spec_carried() + elapsed_micros) / old(self).spec_period(),
            final(self).spec_carried() == (old(self).spec_carried() + elapsed_micros) % old(
                self,
            ).spec_period(),
    {
        let whole: u64 = elapsed_micros / self.period;
        let rest: u64 = elapsed_micros % self.period;
        let ghost p = self.period as int;
        let ghost c = self.carried as int;
        proof {
            vstd::arithmetic::div_mod::lemma_fundamental_div_mod(elapsed_micros as int, p);
        }
        if rest >= self.period - self.carried {
            proof {
                assert(whole + 1 <= u64::MAX) by (nonlinear_arith)
                    requires
                        elapsed_micros == p * whole + rest,
                        rest >= 1,
                        p >= 1,
                        whole >= 0,
                        elapsed_micros <= u64::MAX,
                ;
                assert(c + elapsed_micros == (whole + 1) * p + (rest - (p - c))) by (nonlinear_arith)
                    requires
                        elapsed_micros == p * whole + rest,
                ;
                vstd::arithmetic::div_mod::lemma_fundamental_div_mod_converse(
                    c + elapsed_micros,
                    p,
                    whole + 1,
                    rest - (p - c),
                );
            }
            self.carried = rest - (self.period - self.carried);
            whole + 1
        } else {
            proof {
                assert(c + elapsed_micros == whole * p + (c + rest)) by (nonlinear_arith)
                    requires
                        elapsed_micros == p * whole + rest,
                ;
                vstd::arithmetic::div_mod::lemma_fundamental_div_mod_converse(
                    c + elapsed_micros,
                    p,
                    whole as int,
                    c + rest,
                );
            }
            self.carried = self.carried + rest;
            whole
        }
    }
}

/// Why the driver stopped issuing ticks.
#[derive(Clone, Copy, Debug, PartialEq, Eq, Structural)]
pub enum Halt {
    /// The game ended on a collision.
    GameOver(GameOverReason),
    /// Food was due and the snake covers the whole playfield.
    NoSpaceAvailable,
}

/// What one frame did.
#[derive(Clone, Copy, Debug, PartialEq, Eq, Structural)]
pub struct FrameReport {
    /// Number of ticks run within the frame.
    pub ticks: u64,
    /// Set once the driver has halted.
    pub halt: Option<Halt>,
}

/// `trace` is a run of ticks: each state but the last is a running game and
/// leads to the next state by one tick. Every tick but the last succeeded;
/// the last one failed for want of space exactly if `starved`.
pub open spec fn is_run(trace: Seq<SimulationView>, starved: bool) -> bool {
    &&& trace.len() >= 1
    &&& !starved || trace.len() >= 2
    &&& forall|i: int|
        0 <= i < trace.len() - 1 ==> (#[trigger] trace[i]).state == GameState::Running
            && trace[i].ticks_to(trace[i + 1], !(starved && i == trace.len() - 2))
}

/// A run of `ticks` ticks leads from `start` to `end`.
pub open spec fn runs_to(start: SimulationView, end: SimulationView, ticks: nat, starved: bool) -> bool {
    exists|trace: Seq<SimulationView>|
        {
            &&& #[trigger] is_run(trace, starved)
            &&& trace.len() == ticks + 1
            &&& trace[0] == start
            &&& trace.last() == end
        }
}

/// The halt that a state calls for once a tick has led to it with or
/// without success.
pub open spec fn halt_for(state: GameState, starved: bool) -> Option<Halt> {
    match state {
        GameState::GameOver(reason) => Some(Halt::GameOver(reason)),
        GameState::Running => if starved {
            Some(Halt::NoSpaceAvailable)
        } else {
            None
        },
    }
}

/// The game loop driver. It owns the game and its clock, and remembers
/// having halted.
#[derive(Debug)]
pub struct Driver {
    sim: Simulation,
    clock: TickClock,
    halt: Option<Halt>,
}

impl Driver {
    /// The game as it stands.
    pub closed spec fn spec_sim(&self) -> SimulationView {
        self.sim@
    }

    pub closed spec fn spec_clock(&self) -> TickClock {
        self.clock
    }

    /// Why the driver has halted, if it has.
    pub closed spec fn spec_halt(&self) -> Option<Halt> {
        self.halt
    }

    /// Game and clock are well formed, a finished game has halted the
    /// driver, and only a finished game has halted it as game over.
    pub open spec fn wf(&self) -> bool {
        &&& self.spec_sim().wf()
        &&& self.spec_clock().wf()
        &&& self.spec_halt() == halt_for(
            self.spec_sim().state,
            self.spec_halt() == Some(Halt::NoSpaceAvailable),
        )
    }

    /// A driver for `sim`, halted already if that game is over.
    pub fn new(sim: Simulation, clock: TickClock) -> (d: Driver)
        requires
            sim.wf(),
            clock.wf(),
        ensures
            d.wf(),
            d.spec_sim() == sim@,
            d.spec_clock() == clock,
            d.spec_halt() == halt_for(sim@.state, false),
    {
        let halt = match sim.state() {
            GameState::GameOver(reason) => Some(Halt::GameOver(reason)),
            GameState::Running => None,
        };
        Driver { sim, clock, halt }
    }

    pub fn simulation(&self) -> (s: &Simulation)
        ensures
            s@ == self.spec_sim(),
    {
        &self.sim
    }

    pub fn clock(&self) -> (c: TickClock)
        ensures
            c == self.spec_clock(),
    {
        self.clock
    }

    /// Why the driver has halted, if it has.
    #[verifier::when_used_as_spec(spec_halt)]
    pub fn halt(&self) -> (h: Option<Halt>)
        ensures
            h == self.spec_halt(),
    {
        self.halt
    }

    /// Hands a direction request to the game's input buffer.
    pub fn request_direction(&mut self, d: Direction)
        ensures
            final(self).spec_sim() == (SimulationView { pending: d, ..old(self).spec_sim() }),
            final(self).spec_clock() == old(self).spec_clock(),
            final(self).spec_halt() == old(self).spec_halt(),
    {
        self.sim.request_direction(d);
    }

    /// Hands the keys pressed within one frame to the game's input buffer.
    pub fn press_keys(&mut self, keys: &Vec<Key>)
        ensures
            final(self).spec_sim() == (SimulationView {
                pending: match frame_request(keys@) {
                    Some(d) => d,
                    None => old(self).spec_sim().pending,
                },
                ..old(self).spec_sim()
            }),
            final(self).spec_clock() == old(self).spec_clock(),
            final(self).spec_halt() == old(self).spec_halt(),
    {
        self.sim.press_keys(keys);
    }

    /// Accounts for `elapsed_micros` of time. A halted driver does nothing.
    /// Otherwise the clock takes the time and says how many ticks are due,
    /// and the game is ticked that many times, or fewer if a tick halts the
    /// driver: on a collision, or when food cannot be placed. The game ends
    /// up in a state that a run of that many ticks leads to.
    pub fn update(&mut self, elapsed_micros: u64) -> (report: FrameReport)
        requires
            old(self).wf(),
        ensures
            final(self).wf(),
            report.halt == final(self).spec_halt(),
            old(self).spec_halt().is_some() ==> *final(self) == *old(self) && report.ticks == 0,
            old(self).spec_halt().is_none() ==> {
                let due = (old(self).spec_clock().spec_carried() + elapsed_micros) / old(
                    self,
                ).spec_clock().spec_period();
                &&& final(self).spec_clock().spec_period() == old(self).spec_clock().spec_period()
                &&& final(self).spec_clock().spec_carried() == (old(
                    self,
                ).spec_clock().spec_carried() + elapsed_micros) % old(
                    self,
                ).spec_clock().spec_period()
                &&& report.ticks <= due
                &&& report.ticks < due ==> final(self).spec_halt().is_some()
                &&& final(self).spec_halt().is_some() ==> report.ticks >= 1
                &&& runs_to(
                    old(self).spec_sim(),
                    final(self).spec_sim(),
                    report.ticks as nat,
                    final(self).spec_halt() == Some(Halt::NoSpaceAvailable),
                )
            },
    {
        if self.halt.is_some() {
            return FrameReport { ticks: 0, halt: self.halt };
        }
        let due = self.clock.advance(elapsed_micros);
        let ghost clock_after = self.clock;
        let mut ticks: u64 = 0;
        let ghost mut trace: Seq<SimulationView> = seq![self.sim@];
        while ticks < due && self.halt.is_none()
            invariant
                self.wf(),
                self.clock == clock_after,
                ticks <= due,
                trace.len() == ticks + 1,
                trace[0] == old(self).sim@,
                trace.last() == self.sim@,
                is_run(trace, self.halt == Some(Halt::NoSpaceAvailable)),
                self.halt.is_some() ==> ticks >= 1,
            decreases due - ticks,
        {
            let ghost shorter = trace;
            match self.sim.tick() {
                Ok(TickOutcome::GameOver(reason)) => {
                    self.halt = Some(Halt::GameOver(reason));
                },
                Ok(_) => {},
                Err(_) => {
                    self.halt = Some(Halt::NoSpaceAvailable);
                },
            }
            ticks += 1;
            proof {
                trace = shorter.push(self.sim@);
                let starved = self.halt == Some(Halt::NoSpaceAvailable);
                assert forall|i: int| 0 <= i < trace.len() - 1 implies (#[trigger] trace[i]).state
                    == GameState::Running && trace[i].ticks_to(
                    trace[i + 1],
                    !(starved && i == trace.len() - 2),
                ) by {
                    if i < shorter.len() - 1 {
                        assert(shorter[i].ticks_to(shorter[i + 1], true));
                    }
                }
            }
        }
        FrameReport { ticks, halt: self.halt }
    }
}

} // verus!
