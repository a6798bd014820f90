//! The scheduler: batches of interpreter steps at a fixed tick, timers on
//! their own sixty-hertz cadence, and the fuse checked on every tick.

use crate::display::Display;
use crate::fault::{Fault, StepOutcome};
use crate::fuse::Fuse;
use crate::interpreter::Interpreter;
use crate::keypad::Keypad;
use crate::machine::{executed, step_spec, timer_down, Machine, Step};
use vstd::prelude::*;

verus! {

/// How often per second the delay and sound timers go down.
pub const TIMER_HZ: u64 = 60;

/// Nanoseconds in a second.
pub const NANOS_PER_SECOND: u64 = 1_000_000_000;

/// Instructions per tick where none is asked for.
pub const DEFAULT_CYCLES_PER_TICK: usize = 14;

/// The clock rate where none is asked for, or what was asked for cannot be
/// read: that of the COSMAC VIP, 1.76 MHz.
pub const DEFAULT_FREQUENCY_HZ: u64 = 1_760_000;

/// How a tick ended.
#[derive(Clone, Copy, Debug, PartialEq, Eq, Structural)]
pub enum TickOutcome {
    /// The batch ran and the timers were brought up to date: sleep, then
    /// tick again.
    Continue,
    /// The fuse was tripped before the tick began; nothing was run.
    Stopped,
    /// A step faulted. The fuse is tripped now and the loop must end.
    Faulted(Fault),
}

/// The machine and screen after the steps `from..to` of a batch, step `k`
/// drawing `randoms[k]`. The batch ends early with the first step that
/// faults or finds the machine waiting for a key.
pub open spec fn run_batch(
    m: Machine,
    keys: Seq<bool>,
    screen: Seq<bool>,
    randoms: Seq<u8>,
    from: int,
    to: int,
) -> Step
    decreases to - from,
{
    if from >= to {
        executed(m, screen)
    } else {
        let s = step_spec(m, keys, screen, randoms[from]);
        if s.result == Ok::<StepOutcome, Fault>(StepOutcome::Executed) {
            run_batch(s.machine, keys, s.screen, randoms, from + 1, to)
        } else {
            s
        }
    }
}

/// The timer ticks that fall due when `elapsed` nanoseconds pass, `phase`
/// being what was left over before, in sixtieths of a nanosecond.
pub open spec fn timer_ticks_due(phase: int, elapsed: int) -> int {
    (phase + 60 * elapsed) / 1_000_000_000
}

/// What is left over after the timer ticks that fell due.
pub open spec fn phase_after(phase: int, elapsed: int) -> int {
    (phase + 60 * elapsed) % 1_000_000_000
}

/// The nanoseconds that a run of ticks took in all.
pub open spec fn total_elapsed(elapsed: Seq<int>) -> int
    decreases elapsed.len(),
{
    if elapsed.len() == 0 {
        0
    } else {
        elapsed[0] + total_elapsed(elapsed.drop_first())
    }
}

/// The timer ticks that fall due over a run of scheduler ticks, one after
/// the other, each with its own duration.
pub open spec fn timer_ticks_over(phase: int, elapsed: Seq<int>) -> int
    decreases elapsed.len(),
{
    if elapsed.len() == 0 {
        0
    } else {
        timer_ticks_due(phase, elapsed[0]) + timer_ticks_over(
            phase_after(phase, elapsed[0]),
            elapsed.drop_first(),
        )
    }
}

/// The timers go down sixty times per second of elapsed time, however that
/// time is cut into scheduler ticks and however many instructions a tick
/// runs: the ticks due over a run depend on its total duration alone.
pub proof fn lemma_timer_cadence(phase: int, elapsed: Seq<int>)
    requires
        0 <= phase < 1_000_000_000,
        forall|k: int| 0 <= k < elapsed.len() ==> elapsed[k] >= 0,
    ensures
        total_elapsed(elapsed) >= 0,
        timer_ticks_over(phase, elapsed) == timer_ticks_due(phase, total_elapsed(elapsed)),
    decreases elapsed.len(),
{
    if elapsed.len() > 0 {
        let rest = elapsed.drop_first();
        lemma_timer_cadence(phase_after(phase, elapsed[0]), rest);
    }
}

/// Exactly sixty timer ticks fall due in each full second.
pub proof fn lemma_sixty_per_second(seconds: int)
    requires
        seconds >= 0,
    ensures
        timer_ticks_due(0, seconds * 1_000_000_000) == 60 * seconds,
{
}

/// Letting timer ticks pass in two goes is letting their sum pass at once.
pub proof fn lemma_timer_down_adds(timer: u8, first: int, second: int)
    requires
        first >= 0,
        second >= 0,
    ensures
        timer_down(timer_down(timer, first), second) == timer_down(timer, first + second),
{
}

/// The length of a tick of `cycles_per_tick` instructions at a clock of
/// `frequency_hz`, in whole nanoseconds: `None` for a clock of zero hertz
/// and for a tick too long to count.
pub fn tick_interval_nanos(frequency_hz: u64, cycles_per_tick: usize) -> (nanos: Option<u64>)
    ensures
        nanos matches Some(n) ==> frequency_hz > 0 && n == (cycles_per_tick * 1_000_000_000)
            / (frequency_hz as int),
        nanos is None <==> frequency_hz == 0 || (cycles_per_tick * 1_000_000_000) / (
        frequency_hz as int) > u64::MAX,
{
    if frequency_hz == 0 {
        return None;
    }
    let nanos: u128 = (cycles_per_tick as u128 * 1_000_000_000) / (frequency_hz as u128);
    if nanos > u64::MAX as u128 {
        None
    } else {
        Some(nanos as u64)
    }
}

/// The batch size to run with: what was asked for, or the default.
pub fn cycles_or_default(cycles_per_tick: Option<usize>) -> (cycles: usize)
    ensures
        cycles == match cycles_per_tick {
            Some(count) => count,
            None => DEFAULT_CYCLES_PER_TICK,
        },
{
    match cycles_per_tick {
        Some(count) => count,
        None => DEFAULT_CYCLES_PER_TICK,
    }
}

/// Paces an interpreter: how many instructions make a tick, how long a tick
/// is meant to last, and how far the timers are into their current period.
#[derive(Debug)]
pub struct Scheduler {
    cycles_per_tick: usize,
    tick_nanos: u64,
    phase: u64,
}

impl Scheduler {
    #[verifier::type_invariant]
    spec fn inv(&self) -> bool {
        &&& self.cycles_per_tick >= 1
        &&& self.phase < 1_000_000_000
    }

    /// Instructions per tick.
    pub closed spec fn cycles(&self) -> nat {
        self.cycles_per_tick as nat
    }

    /// The length of a tick in nanoseconds.
    pub closed spec fn interval(&self) -> nat {
        self.tick_nanos as nat
    }

    /// How far the timers are into their period, in sixtieths of a
    /// nanosecond.
    pub closed spec fn phase(&self) -> int {
        self.phase as int
    }

    /// A scheduler that runs `cycles_per_tick` instructions every
    /// `tick_nanos` nanoseconds. A batch of no instructions is refused.
    pub fn new(tick_nanos: u64, cycles_per_tick: usize) -> (scheduler: Option<Scheduler>)
        ensures
            scheduler is Some <==> cycles_per_tick >= 1,
            scheduler matches Some(s) ==> s.cycles() == cycles_per_tick && s.interval()
                == tick_nanos && s.phase() == 0,
    {
        if cycles_per_tick == 0 {
            None
        } else {
            Some(Scheduler { cycles_per_tick, tick_nanos, phase: 0 })
        }
    }

    /// Instructions per tick; at least one.
    pub fn cycles_per_tick(&self) -> (cycles: usize)
        ensures
            cycles == self.cycles(),
            cycles >= 1,
    {
        proof {
            use_type_invariant(self);
        }
        self.cycles_per_tick
    }

    /// How long to sleep between two ticks, in nanoseconds.
    pub fn tick_nanos(&self) -> (nanos: u64)
        ensures
            nanos == self.interval(),
    {
        self.tick_nanos
    }

    /// One tick, to be run after each sleep. `elapsed_nanos` is the time
    /// since the tick before, and step `k` of the batch draws `randoms[k]`.
    ///
    /// With the fuse tripped nothing runs. Otherwise the batch runs: up to
    /// `cycles_per_tick` steps, ending early on a fault or a key wait. A
    /// fault trips the fuse and leaves the timers alone. Without one the
    /// timers go down by the ticks that fell due in `elapsed_nanos`, sixty
    /// to the second, whatever the batch size.
    pub fn tick(
        &mut self,
        vm: &mut Interpreter,
        keypad: &Keypad,
        display: &mut Display,
        fuse: &mut Fuse,
        elapsed_nanos: u64,
        randoms: &[u8],
    ) -> (outcome: TickOutcome)
        requires
            randoms@.len() >= old(self).cycles(),
        ensures
            final(self).cycles() == old(self).cycles(),
            final(self).interval() == old(self).interval(),
            old(fuse).tripped() ==> {
                &&& outcome == TickOutcome::Stopped
                &&& *final(fuse) == *old(fuse)
                &&& final(vm)@ == old(vm)@
                &&& final(display)@ == old(display)@
                &&& final(self).phase() == old(self).phase()
            },
            !old(fuse).tripped() ==> ({
                let batch = run_batch(
                    old(vm)@,
                    keypad@,
                    old(display)@,
                    randoms@,
                    0,
                    old(self).cycles() as int,
                );
                &&& final(display)@ == batch.screen
                &&& match batch.result {
                    Err(fault) => {
                        &&& outcome == TickOutcome::Faulted(fault)
                        &&& final(fuse).tripped()
                        &&& final(vm)@ == batch.machine
                        &&& final(self).phase() == old(self).phase()
                    },
                    Ok(_) => {
                        &&& outcome == TickOutcome::Continue
                        &&& *final(fuse) == *old(fuse)
                        &&& final(vm)@ == batch.machine.with_timers_down(
                            timer_ticks_due(old(self).phase(), elapsed_nanos as int),
                        )
                        &&& final(self).phase() == phase_after(
                            old(self).phase(),
                            elapsed_nanos as int,
                        )
                    },
                }
            }),
    {
        proof {
            use_type_invariant(&*self);
        }
        if fuse.is_tripped() {
            return TickOutcome::Stopped;
        }
        let cycles = self.cycles_per_tick;
        let ghost whole = run_batch(old(vm)@, keypad@, old(display)@, randoms@, 0, cycles as int);
        let mut waiting = false;
        let mut k: usize = 0;
        while k < cycles && !waiting
            invariant
                k <= cycles <= randoms@.len(),
                cycles == old(self).cycles(),
                *self == *old(self),
                *fuse == *old(fuse),
                !old(fuse).tripped(),
                whole == run_batch(
                    old(vm)@,
                    keypad@,
                    old(display)@,
                    randoms@,
                    0,
                    cycles as int,
                ),
                !waiting ==> whole == run_batch(
                    vm@,
                    keypad@,
                    display@,
                    randoms@,
                    k as int,
                    cycles as int,
                ),
                waiting ==> whole == (Step {
                    machine: vm@,
                    screen: display@,
                    result: Ok(StepOutcome::WaitingForKey),
                }),
            decreases cycles - k + (if waiting { 0int } else { 1int }),
        {
            let ghost before = vm@;
            let ghost screen = display@;
            assert(whole == run_batch(before, keypad@, screen, randoms@, k as int, cycles as int));
            match vm.step(keypad, display, randoms[k]) {
                Err(fault) => {
                    fuse.trip();
                    return TickOutcome::Faulted(fault);
                },
                Ok(StepOutcome::WaitingForKey) => {
                    waiting = true;
                },
                Ok(StepOutcome::Executed) => {
                    k = k + 1;
                },
            }
        }
        let total: u128 = self.phase as u128 + 60 * (elapsed_nanos as u128);
        let due: u128 = total / 1_000_000_000;
        self.phase = (total % 1_000_000_000) as u64;
        vm.tick_timers(due as u64);
        TickOutcome::Continue
    }
}

} // verus!
