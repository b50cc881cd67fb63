//! When the trial cuts an attachment, and how an attachment has to end.
use vstd::prelude::*;

use crate::acceptance::args::Mode;
use crate::protocol::OutputOffsets;
use crate::text;
use crate::text::{join, join3, signed_decimal_text};

verus! {

/// The state that a seed gives to the generator.
pub open spec fn seeded(seed: u64) -> u64 {
    if seed == 0 {
        1
    } else {
        seed
    }
}

/// The state of the generator after one step from `state`.
pub open spec fn stepped(state: u64) -> u64 {
    state.wrapping_mul(6364136223846793005u64).wrapping_add(1442695040888963407u64)
}

/// The state of the generator `steps` steps after it was seeded.
pub open spec fn state_after(seed: u64, steps: nat) -> u64
    decreases steps,
{
    if steps == 0 {
        seeded(seed)
    } else {
        stepped(state_after(seed, (steps - 1) as nat))
    }
}

/// A linear congruential generator: the same seed gives the same numbers.
#[derive(Clone, Copy, Debug, PartialEq, Eq, Structural)]
pub struct Lcg {
    pub state: u64,
}

impl Lcg {
    pub fn new(seed: u64) -> (r: Lcg)
        ensures
            r.state == state_after(seed, 0),
    {
        if seed == 0 {
            Lcg { state: 1 }
        } else {
            Lcg { state: seed }
        }
    }

    pub fn next_u64(&mut self) -> (r: u64)
        ensures
            r == stepped(old(self).state),
            final(self).state == r,
    {
        self.state = self.state.wrapping_mul(6364136223846793005).wrapping_add(1442695040888963407);
        self.state
    }
}

/// A seed from the clock: the low bits of the nanoseconds since the epoch, or
/// one where the clock stands before it.
pub fn default_seed(clock: Option<u128>) -> (r: u64)
    ensures
        r == match clock {
            Some(nanoseconds) => nanoseconds % 0x1_0000_0000_0000_0000,
            None => 1,
        },
{
    match clock {
        Some(nanoseconds) => (nanoseconds % 0x1_0000_0000_0000_0000) as u64,
        None => 1,
    }
}

/// The seed of a trial. Only a chaos trial that names no seed asks the clock.
pub fn trial_seed(mode: Mode, asked: Option<u64>, clock: Option<u128>) -> (r: u64)
    ensures
        r == match asked {
            Some(seed) => seed as int,
            None => match mode {
                Mode::Smoke => 0int,
                Mode::Chaos => match clock {
                    Some(nanoseconds) => nanoseconds as int % 0x1_0000_0000_0000_0000,
                    None => 1int,
                },
            },
        },
{
    match asked {
        Some(seed) => seed,
        None => match mode {
            Mode::Smoke => 0,
            Mode::Chaos => default_seed(clock),
        },
    }
}

/// How often a trial cuts the attachment.
pub open spec fn cut_count(mode: Mode, cycles: usize) -> usize {
    match mode {
        Mode::Smoke => 3,
        Mode::Chaos => cycles,
    }
}

/// How often a trial cuts the attachment.
pub fn trial_cycles(mode: Mode, cycles: usize) -> (r: usize)
    ensures
        r == cut_count(mode, cycles),
{
    match mode {
        Mode::Smoke => 3,
        Mode::Chaos => cycles,
    }
}

/// How many lines the command writes before its barrier, and how many behind it.
pub fn output_counts(mode: Mode, cycles: usize) -> (r: (usize, usize))
    ensures
        match mode {
            Mode::Smoke => r == (30usize, 50usize),
            Mode::Chaos => {
                &&& r.0 == r.1
                &&& r.0 == if cycles * 12 > usize::MAX {
                    usize::MAX as int
                } else if cycles * 12 < 60 {
                    60
                } else {
                    cycles * 12
                }
            },
        },
{
    match mode {
        Mode::Smoke => (30, 50),
        Mode::Chaos => {
            let each: usize = if cycles > usize::MAX / 12 {
                usize::MAX
            } else if cycles * 12 < 60 {
                60
            } else {
                cycles * 12
            };
            (each, each)
        },
    }
}

/// One cut of the attachment.
#[derive(Clone, Copy, Debug, PartialEq, Eq, Structural)]
pub struct Cut {
    /// Whether the barrier of the command opens before it.
    pub open_barrier: bool,
    /// Whether the attachment creates the session.
    pub create: bool,
    /// How many milliseconds the attachment lives.
    pub delay: u64,
}

/// The cut number `index` of a trial.
pub open spec fn cut_at(mode: Mode, seed: u64, cycles: usize, index: nat) -> Cut {
    match mode {
        Mode::Smoke => Cut {
            open_barrier: false,
            create: index == 0,
            delay: if index == 0 {
                180
            } else if index == 1 {
                220
            } else {
                160
            },
        },
        Mode::Chaos => Cut {
            open_barrier: index == cycles / 2,
            create: index == 0,
            delay: (35 + state_after(seed, index + 1) % 145) as u64,
        },
    }
}

/// The cuts of a trial, one after the other.
#[derive(Clone, Copy, Debug, PartialEq, Eq, Structural)]
pub struct TrialPlan {
    pub mode: Mode,
    pub seed: u64,
    pub cycles: usize,
    pub done: usize,
    pub rng: Lcg,
}

impl TrialPlan {
    pub open spec fn valid(self) -> bool {
        &&& self.done <= self.cycles
        &&& self.mode is Chaos ==> self.rng.state == state_after(self.seed, self.done as nat)
        &&& self.mode is Smoke ==> self.cycles == 3
    }

    pub fn new(mode: Mode, seed: u64, cycles: usize) -> (r: TrialPlan)
        ensures
            r.valid(),
            r.mode == mode,
            r.seed == seed,
            r.cycles == cut_count(mode, cycles),
            r.done == 0,
    {
        TrialPlan { mode, seed, cycles: trial_cycles(mode, cycles), done: 0, rng: Lcg::new(seed) }
    }

    /// The next cut, as long as there is one. Once there is none, the barrier
    /// opens in any case.
    pub fn next(&mut self) -> (r: Option<Cut>)
        requires
            old(self).valid(),
        ensures
            final(self).valid(),
            final(self).mode == old(self).mode,
            final(self).seed == old(self).seed,
            final(self).cycles == old(self).cycles,
            if old(self).done < old(self).cycles {
                &&& r == Some(
                    cut_at(
                        old(self).mode,
                        old(self).seed,
                        old(self).cycles,
                        old(self).done as nat,
                    ),
                )
                &&& final(self).done == old(self).done + 1
            } else {
                &&& r is None
                &&& final(self).done == old(self).done
            },
    {
        if self.done >= self.cycles {
            return None;
        }
        let index: usize = self.done;
        self.done = index + 1;
        match self.mode {
            Mode::Smoke => {
                let delay: u64 = if index == 0 {
                    180
                } else if index == 1 {
                    220
                } else {
                    160
                };
                Some(Cut { open_barrier: false, create: index == 0, delay })
            },
            Mode::Chaos => {
                let number: u64 = self.rng.next_u64();
                Some(
                    Cut {
                        open_barrier: index == self.cycles / 2,
                        create: index == 0,
                        delay: 35 + number % 145,
                    },
                )
            },
        }
    }
}

/// Only the first attachment of a trial creates the session, and no attachment
/// lives longer than the longest planned cut, whatever the seed.
pub proof fn cuts_are_bounded(mode: Mode, seed: u64, cycles: usize, index: nat)
    ensures
        cut_at(mode, seed, cycles, index).create == (index == 0),
        35 <= cut_at(mode, seed, cycles, index).delay <= 220,
        mode is Chaos ==> cut_at(mode, seed, cycles, index).delay < 180,
{
}

/// A chaos trial of at least one cycle opens the barrier at exactly one of its
/// cuts; a smoke trial at none.
pub proof fn barrier_opens_once(seed: u64, cycles: usize, first: nat, second: nat)
    requires
        first < cycles,
        second < cycles,
    ensures
        cycles / 2 < cycles,
        cut_at(Mode::Chaos, seed, cycles, (cycles / 2) as nat).open_barrier,
        cut_at(Mode::Chaos, seed, cycles, first).open_barrier && cut_at(
            Mode::Chaos,
            seed,
            cycles,
            second,
        ).open_barrier ==> first == second,
        !cut_at(Mode::Smoke, seed, cycles, first).open_barrier,
{
}

/// Where a controller asks the session to resume: nowhere if it creates it,
/// else where its records end.
pub fn resume_from(create: bool, stdout: u64, stderr: u64) -> (r: Option<OutputOffsets>)
    ensures
        r == if create {
            None::<OutputOffsets>
        } else {
            Some(OutputOffsets { stdout, stderr })
        },
{
    if create {
        None
    } else {
        Some(OutputOffsets { stdout, stderr })
    }
}

/// What a controller does with its attachment.
#[derive(Clone, Copy, Debug, PartialEq, Eq, Structural)]
pub enum WatchStep {
    /// It has ended.
    Finish,
    /// It has lived long enough.
    Kill,
    Wait,
}

/// Decides what to do with an attachment that has lived for `elapsed`
/// nanoseconds. One that ended by itself is never killed.
pub fn watch(exited: bool, elapsed: u128, kill_after_ms: Option<u64>) -> (r: WatchStep)
    ensures
        r == if exited {
            WatchStep::Finish
        } else if kill_after_ms is Some && elapsed >= kill_after_ms->0 * 1_000_000 {
            WatchStep::Kill
        } else {
            WatchStep::Wait
        },
{
    if exited {
        return WatchStep::Finish;
    }
    match kill_after_ms {
        Some(limit) => {
            if elapsed >= limit as u128 * 1_000_000 {
                WatchStep::Kill
            } else {
                WatchStep::Wait
            }
        },
        None => WatchStep::Wait,
    }
}

/// What is wrong with the end of an attachment.
#[derive(Clone, Copy, Debug, PartialEq, Eq, Structural)]
pub enum FinishFault {
    /// It should have ended with this exit code.
    Exit { expected: i32 },
    /// It should not have ended by itself.
    Early,
}

impl FinishFault {
    /// The diagnostic for an attachment that ended with `status`.
    pub open spec fn text(self, status: Seq<char>) -> Seq<char> {
        match self {
            FinishFault::Exit { expected } => "expected terminal exit "@ + text::signed_decimal(
                expected as int,
            ) + ", got "@ + status,
            FinishFault::Early => "attachment ended before the requested disconnect point: "@
                + status,
        }
    }

    pub fn message(&self, status: &str) -> (r: String)
        ensures
            r@ == self.text(status@),
    {
        match self {
            FinishFault::Exit { expected } => {
                let mut r = join3(
                    "expected terminal exit ",
                    signed_decimal_text(*expected as i64).as_str(),
                    ", got ",
                );
                r.append(status);
                r
            },
            FinishFault::Early => {
                join("attachment ended before the requested disconnect point: ", status)
            },
        }
    }
}

/// Accepts the end of an attachment: with the expected exit code where one is
/// expected, else only if it was killed. Says whether it was.
pub fn finish(code: Option<i32>, killed: bool, expect_exit: Option<i32>) -> (r: Result<
    bool,
    FinishFault,
>)
    ensures
        r == match expect_exit {
            Some(expected) => if code == Some(expected) {
                Ok::<bool, FinishFault>(killed)
            } else {
                Err(FinishFault::Exit { expected })
            },
            None => if killed {
                Ok(true)
            } else {
                Err(FinishFault::Early)
            },
        },
{
    match expect_exit {
        Some(expected) => match code {
            Some(code) => {
                if code == expected {
                    Ok(killed)
                } else {
                    Err(FinishFault::Exit { expected })
                }
            },
            None => Err(FinishFault::Exit { expected }),
        },
        None => {
            if killed {
                Ok(true)
            } else {
                Err(FinishFault::Early)
            }
        },
    }
}

/// The exit code of a process that ended with `code`, or by `signal`.
pub fn process_code(code: Option<i32>, signal: Option<i32>) -> (r: i32)
    requires
        code is None && signal is Some ==> signal->0 <= i32::MAX - 128,
    ensures
        r == match code {
            Some(code) => code as int,
            None => match signal {
                Some(signal) => 128 + signal,
                None => 129int,
            },
        },
{
    match code {
        Some(code) => code,
        None => match signal {
            Some(signal) => 128 + signal,
            None => 129,
        },
    }
}

/// The seed that is asked for is taken. Without one a smoke trial is always the
/// same, and only a chaos trial looks at the clock.
pub proof fn asked_seeds_are_taken(
    mode: Mode,
    asked: Option<u64>,
    clock: Option<u128>,
    other: Option<u128>,
    r: u64,
    s: u64,
)
    requires
        call_ensures(trial_seed, (mode, asked, clock), r),
        call_ensures(trial_seed, (mode, asked, other), s),
    ensures
        asked matches Some(seed) ==> r == seed,
        asked is Some || mode is Smoke ==> r == s,
        asked is None && mode is Smoke ==> r == 0,
        asked is None && mode is Chaos && clock is None ==> r == 1,
        asked is None && mode is Chaos && clock is Some && clock->0 <= u64::MAX ==> r == clock->0,
{
}

/// The generator steps by one multiplication and one addition, and gives its new
/// state; a seed of zero counts as one.
pub proof fn numbers_follow_the_seed(
    seed: u64,
    other: u64,
    fresh: Lcg,
    also: Lcg,
    one: &mut Lcg,
    two: &mut Lcg,
    r: u64,
    s: u64,
)
    requires
        call_ensures(Lcg::new, (seed,), fresh),
        call_ensures(Lcg::new, (other,), also),
        call_ensures(Lcg::next_u64, (one,), r),
        call_ensures(Lcg::next_u64, (two,), s),
    ensures
        seed != 0 ==> fresh.state == seed,
        seed == 0 ==> fresh.state == 1,
        r == (old(one).state * 6364136223846793005 + 1442695040888963407)
            % 0x1_0000_0000_0000_0000,
        final(one).state == r,
        old(one).state == old(two).state ==> r == s && final(one).state == final(two).state,
{
    reveal_with_fuel(state_after, 1);
    let product = old(one).state * 6364136223846793005;
    vstd::arithmetic::div_mod::lemma_add_mod_noop(
        product,
        1442695040888963407,
        0x1_0000_0000_0000_0000,
    );
}

/// A smoke trial writes a fixed number of lines. A chaos trial writes twelve for
/// each cut on both sides of its barrier, but never fewer than sixty.
pub proof fn trials_write_enough(mode: Mode, cycles: usize, r: (usize, usize))
    requires
        call_ensures(output_counts, (mode, cycles), r),
    ensures
        mode is Smoke ==> r.0 == 30 && r.1 == 50,
        mode is Chaos ==> r.0 == r.1 && r.0 >= 60 && (cycles >= 5 && cycles * 12 <= usize::MAX
            ==> r.0 == cycles * 12) && (cycles < 5 ==> r.0 == 60),
{
}

/// A trial has as many cuts as planned. Only its first attachment creates the
/// session, a chaos trial opens the barrier at its middle cut, and an attachment
/// lives as long as planned.
pub proof fn cuts_follow_the_plan(plan: &mut TrialPlan, r: Option<Cut>)
    requires
        old(plan).valid(),
        call_ensures(TrialPlan::next, (plan,), r),
    ensures
        r is Some <==> old(plan).done < old(plan).cycles,
        r is Some ==> final(plan).done == old(plan).done + 1,
        r is None ==> final(plan).done == old(plan).done,
        final(plan).cycles == old(plan).cycles,
        r matches Some(cut) ==> {
            &&& cut.create <==> old(plan).done == 0
            &&& cut.open_barrier <==> old(plan).mode is Chaos && old(plan).done == old(plan).cycles
                / 2
            &&& old(plan).mode is Chaos ==> 35 <= cut.delay <= 179
            &&& old(plan).mode is Smoke && old(plan).done == 0 ==> cut.delay == 180
            &&& old(plan).mode is Smoke && old(plan).done == 1 ==> cut.delay == 220
            &&& old(plan).mode is Smoke && old(plan).done == 2 ==> cut.delay == 160
        },
{
}

/// A plan begins before its first cut, with three cuts for a smoke trial and as
/// many as were asked for in a chaos trial.
pub proof fn plans_begin_before_the_first_cut(
    mode: Mode,
    seed: u64,
    cycles: usize,
    r: TrialPlan,
    count: usize,
)
    requires
        call_ensures(TrialPlan::new, (mode, seed, cycles), r),
        call_ensures(trial_cycles, (mode, cycles), count),
    ensures
        r.done == 0,
        r.cycles == count,
        mode is Smoke ==> count == 3,
        mode is Chaos ==> count == cycles,
        mode is Chaos && seed != 0 ==> r.rng.state == seed,
{
    reveal_with_fuel(state_after, 1);
}

/// A controller resumes where its records end, unless it creates the session.
pub proof fn controllers_resume_at_their_records(
    create: bool,
    stdout: u64,
    stderr: u64,
    r: Option<OutputOffsets>,
)
    requires
        call_ensures(resume_from, (create, stdout, stderr), r),
    ensures
        r is None <==> create,
        r matches Some(offsets) ==> offsets.stdout == stdout && offsets.stderr == stderr,
{
}

/// An attachment that ended is never killed, and no other is killed before its
/// time.
pub proof fn attachments_live_their_time(
    exited: bool,
    elapsed: u128,
    limit: Option<u64>,
    r: WatchStep,
)
    requires
        call_ensures(watch, (exited, elapsed, limit), r),
    ensures
        r is Finish <==> exited,
        r is Kill <==> !exited && limit is Some && elapsed >= limit->0 * 1_000_000,
        r is Wait ==> !exited && (limit is Some ==> elapsed < limit->0 * 1_000_000),
{
}

/// An attachment ends well with the exit that is expected of it, and where none is
/// expected only by being killed.
pub proof fn ends_are_as_expected(
    code: Option<i32>,
    killed: bool,
    expected: Option<i32>,
    r: Result<bool, FinishFault>,
)
    requires
        call_ensures(finish, (code, killed, expected), r),
    ensures
        expected is Some ==> (r is Ok <==> code == expected),
        expected is None ==> (r is Ok <==> killed),
        r matches Ok(was) ==> was == killed,
        r is Err && expected is Some ==> r->Err_0 is Exit,
        r is Err && expected is None ==> r->Err_0 is Early,
{
}

/// The exit code of a process is its own, or 128 and the signal that ended it.
pub proof fn exit_codes_tell_signals(code: Option<i32>, signal: Option<i32>, r: i32)
    requires
        code is None && signal is Some ==> signal->0 <= i32::MAX - 128,
        code is Some || signal is Some,
        call_ensures(process_code, (code, signal), r),
    ensures
        code is Some ==> r == code->0,
        code is None ==> r == 128 + signal->0,
{
}

/// A seed from the clock is what the clock shows, modulo the range of a seed, so
/// that clocks that differ by less have seeds that differ.
pub proof fn seeds_follow_the_clock(one: u128, other: u128, r: u64, s: u64, none: u64)
    requires
        call_ensures(default_seed, (Some(one),), r),
        call_ensures(default_seed, (Some(other),), s),
        call_ensures(default_seed, (None,), none),
    ensures
        one <= u64::MAX ==> r == one,
        other == one + 0x1_0000_0000_0000_0000 ==> r == s,
        one < other < one + 0x1_0000_0000_0000_0000 ==> r != s,
        none == 1,
{
}

/// The diagnostic shows how the attachment ended, and how it should have.
pub proof fn endings_are_shown(fault: FinishFault, status: &str, r: String)
    requires
        call_ensures(FinishFault::message, (&fault, status), r),
    ensures
        fault matches FinishFault::Exit { expected } ==> r@ == "expected terminal exit "@
            + text::signed_decimal(expected as int) + ", got "@ + status@,
        fault is Early ==> r@ == "attachment ended before the requested disconnect point: "@
            + status@,
{
}

} // verus!
