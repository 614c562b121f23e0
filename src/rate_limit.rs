//! A rate-paced sequence: the items of a finite source, handed out no faster
//! than a fixed interval, driven by the caller's clock.
//!
//! The pacing is a state machine with one transition per poll. The caller
//! passes the current time in milliseconds and either receives the next item
//! or the instant it has to wait for before polling again.
use vstd::prelude::*;

use std::collections::VecDeque;

verus! {

/// What the timer does when the caller polls after one or more ticks were due.
#[derive(Clone, Copy, Debug, PartialEq, Eq, Structural)]
pub enum MissedTickBehavior {
    /// Fire once for each missed tick, keeping the schedule it had.
    Burst,
    /// Fire once, then schedule the next tick one interval after now.
    Delay,
    /// Fire once, then resume the schedule it had at its next future tick.
    Skip,
}

/// The timer's state.
#[derive(Clone, Copy, Debug, PartialEq, Eq, Structural)]
pub enum PaceState {
    /// Never polled: the first tick fires at once.
    Idle,
    /// The next tick is due at the given instant, in milliseconds.
    AwaitingTick(u64),
    /// The source ran out: no further ticks.
    Exhausted,
}

/// The outcome of a tick check.
#[derive(Clone, Copy, Debug, PartialEq, Eq, Structural)]
pub enum Tick {
    /// Nothing is due before the given instant.
    Wait(u64),
    /// A tick fired.
    Fire,
}

/// Why a rate cannot pace a sequence.
#[derive(Clone, Copy, Debug, PartialEq, Eq, Structural)]
pub enum RateError {
    /// A rate of zero items per second has no interval.
    ZeroRate,
    /// More than a thousand items per second rounds the interval down to zero.
    IntervalTooShort,
}

/// The outcome of polling a paced sequence.
#[derive(Debug)]
pub enum PollNext<T> {
    /// Not ready: poll again at the given instant, in milliseconds.
    Pending(u64),
    /// The next item, or `None` once the source is exhausted.
    Ready(Option<T>),
}

/// `x`, or `u64::MAX` where it does not fit.
pub open spec fn saturate(x: int) -> u64 {
    if x > u64::MAX {
        u64::MAX
    } else if x < 0 {
        0
    } else {
        x as u64
    }
}

/// The deadline after a tick that was due at `deadline` fired at `now`.
pub open spec fn next_deadline(b: MissedTickBehavior, deadline: u64, now: u64, interval: u64) -> u64 {
    match b {
        MissedTickBehavior::Burst => saturate(deadline + interval),
        MissedTickBehavior::Delay => saturate(now + interval),
        MissedTickBehavior::Skip => saturate(now + interval - ((now - deadline) % (interval as int))),
    }
}

/// One transition of the timer on a poll at `now`.
pub open spec fn tick_step(s: PaceState, b: MissedTickBehavior, interval: u64, now: u64) -> (
    PaceState,
    Tick,
) {
    match s {
        PaceState::Idle => (PaceState::AwaitingTick(saturate(now + interval)), Tick::Fire),
        PaceState::AwaitingTick(d) => if now < d {
            (s, Tick::Wait(d))
        } else {
            (PaceState::AwaitingTick(next_deadline(b, d, now, interval)), Tick::Fire)
        },
        PaceState::Exhausted => (s, Tick::Wait(u64::MAX)),
    }
}

/// The interval in milliseconds between items at `per_sec` items per second.
pub fn interval_ms(per_sec: u64) -> (r: Result<u64, RateError>)
    ensures
        per_sec == 0 ==> r == Err::<u64, RateError>(RateError::ZeroRate),
        per_sec > 1000 ==> r == Err::<u64, RateError>(RateError::IntervalTooShort),
        1 <= per_sec <= 1000 ==> r == Ok::<u64, RateError>(1000u64 / per_sec),
        r is Ok ==> r->Ok_0 > 0,
{
    if per_sec == 0 {
        Err(RateError::ZeroRate)
    } else if per_sec > 1000 {
        Err(RateError::IntervalTooShort)
    } else {
        assert(1000u64 / per_sec >= 1) by (nonlinear_arith)
            requires
                1 <= per_sec <= 1000,
        ;
        Ok(1000 / per_sec)
    }
}

fn step(s: PaceState, b: MissedTickBehavior, interval: u64, now: u64) -> (r: (PaceState, Tick))
    requires
        interval > 0,
    ensures
        r == tick_step(s, b, interval, now),
{
    match s {
        PaceState::Idle => (PaceState::AwaitingTick(now.saturating_add(interval)), Tick::Fire),
        PaceState::AwaitingTick(d) => {
            if now < d {
                (s, Tick::Wait(d))
            } else {
                let next = match b {
                    MissedTickBehavior::Burst => d.saturating_add(interval),
                    MissedTickBehavior::Delay => now.saturating_add(interval),
                    MissedTickBehavior::Skip => {
                        let late = (now - d) % interval;
                        assert(late <= now - d) by (nonlinear_arith)
                            requires
                                late == (now - d) as int % (interval as int),
                                now >= d,
                                interval > 0,
                        ;
                        (now - late).saturating_add(interval)
                    },
                };
                (PaceState::AwaitingTick(next), Tick::Fire)
            }
        },
        PaceState::Exhausted => (s, Tick::Wait(u64::MAX)),
    }
}

/// The items of a finite source, handed out no faster than a fixed interval.
pub struct RateLimitIter<T> {
    items: VecDeque<T>,
    interval: u64,
    behavior: MissedTickBehavior,
    state: PaceState,
}

impl<T> RateLimitIter<T> {
    /// The items not handed out yet.
    pub closed spec fn remaining(&self) -> Seq<T> {
        self.items@
    }

    /// The interval between ticks, in milliseconds.
    pub closed spec fn interval(&self) -> u64 {
        self.interval
    }

    pub closed spec fn behavior(&self) -> MissedTickBehavior {
        self.behavior
    }

    pub closed spec fn state(&self) -> PaceState {
        self.state
    }

    pub open spec fn wf(&self) -> bool {
        self.interval() > 0
    }

    pub fn set_missed_tick_behavior(&mut self, opt: MissedTickBehavior)
        ensures
            final(self).behavior() == opt,
            final(self).remaining() == old(self).remaining(),
            final(self).interval() == old(self).interval(),
            final(self).state() == old(self).state(),
    {
        self.behavior = opt;
    }

    /// The interval between ticks, in milliseconds.
    pub fn interval_ms(&self) -> (r: u64)
        ensures
            r == self.interval(),
    {
        self.interval
    }

    /// The number of items left, as lower and upper bound.
    pub fn size_hint(&self) -> (r: (usize, Option<usize>))
        ensures
            r.0 == self.remaining().len(),
            r.1 == Some(self.remaining().len() as usize),
    {
        (self.items.len(), Some(self.items.len()))
    }

    /// Polls at `now` (milliseconds): hands out the next item when a tick
    /// fires, the end of the sequence when a tick fires on an empty source,
    /// and otherwise the instant to poll again.
    pub fn poll_next(&mut self, now: u64) -> (r: PollNext<T>)
        requires
            old(self).wf(),
        ensures
            final(self).wf(),
            final(self).interval() == old(self).interval(),
            final(self).behavior() == old(self).behavior(),
            old(self).state() == PaceState::Exhausted ==> {
                &&& r matches PollNext::Ready(None)
                &&& final(self).state() == PaceState::Exhausted
                &&& final(self).remaining() == old(self).remaining()
            },
            old(self).state() != PaceState::Exhausted ==> {
                let (next, tick) = tick_step(
                    old(self).state(),
                    old(self).behavior(),
                    old(self).interval(),
                    now,
                );
                match tick {
                    Tick::Wait(d) => {
                        &&& r matches PollNext::Pending(w) && w == d
                        &&& final(self).state() == old(self).state()
                        &&& final(self).remaining() == old(self).remaining()
                    },
                    Tick::Fire => if old(self).remaining().len() > 0 {
                        &&& r matches PollNext::Ready(Some(x)) && x == old(self).remaining()[0]
                        &&& final(self).state() == next
                        &&& final(self).remaining() == old(self).remaining().drop_first()
                    } else {
                        &&& r matches PollNext::Ready(None)
                        &&& final(self).state() == PaceState::Exhausted
                        &&& final(self).remaining() == old(self).remaining()
                    },
                }
            },
    {
        if self.state == PaceState::Exhausted {
            return PollNext::Ready(None);
        }
        let (next, tick) = step(self.state, self.behavior, self.interval, now);
        match tick {
            Tick::Wait(d) => PollNext::Pending(d),
            Tick::Fire => {
                match self.items.pop_front() {
                    Some(x) => {
                        self.state = next;
                        proof {
                            assert(self.items@ =~= old(self).items@.drop_first());
                        }
                        PollNext::Ready(Some(x))
                    },
                    None => {
                        self.state = PaceState::Exhausted;
                        PollNext::Ready(None)
                    },
                }
            },
        }
    }
}

/// Paces the items of `items` at `per_sec` items per second, with the
/// `Delay` policy for missed ticks.
pub fn rate_limit<T>(items: Vec<T>, per_sec: u64) -> (r: Result<RateLimitIter<T>, RateError>)
    ensures
        match interval_ms_spec(per_sec) {
            Ok(i) => r matches Ok(it) && {
                &&& it.wf()
                &&& it.interval() == i
                &&& it.behavior() == MissedTickBehavior::Delay
                &&& it.state() == PaceState::Idle
                &&& it.remaining() == items@
            },
            Err(e) => r matches Err(f) && f == e,
        },
{
    match interval_ms(per_sec) {
        Ok(interval) => {
            let mut rest = items;
            let mut queue: VecDeque<T> = VecDeque::new();
            while rest.len() > 0
                invariant
                    rest@ + queue@ == items@,
                decreases rest@.len(),
            {
                let ghost before = rest@;
                let x = rest.pop().unwrap();
                proof {
                    assert(before =~= rest@.push(x));
                    assert(rest@ + (seq![x] + queue@) =~= before + queue@);
                }
                queue.push_front(x);
            }
            proof {
                assert(queue@ =~= items@);
            }
            Ok(RateLimitIter { items: queue, interval, behavior: MissedTickBehavior::Delay, state: PaceState::Idle })
        },
        Err(e) => Err(e),
    }
}

/// The interval that `interval_ms` gives for `per_sec`.
pub open spec fn interval_ms_spec(per_sec: u64) -> Result<u64, RateError> {
    if per_sec == 0 {
        Err(RateError::ZeroRate)
    } else if per_sec > 1000 {
        Err(RateError::IntervalTooShort)
    } else {
        Ok(1000u64 / per_sec)
    }
}

/// Under the `Delay` policy, once a tick fires at `t1` no other tick fires
/// before `t1` plus the interval, however late `t1` was: a stalled consumer
/// gets one item at once and then waits a full interval, never a burst.
pub proof fn lemma_delay_spacing(s: PaceState, interval: u64, t1: u64, t2: u64)
    requires
        interval > 0,
        tick_step(s, MissedTickBehavior::Delay, interval, t1).1 == Tick::Fire,
        t2 < t1 + interval,
        t1 + interval <= u64::MAX,
    ensures
        tick_step(tick_step(s, MissedTickBehavior::Delay, interval, t1).0, MissedTickBehavior::Delay, interval, t2).1
            == Tick::Wait(saturate(t1 + interval)),
{
}

/// Items handed out by two successive polls of a paced sequence under the
/// `Delay` policy are at least one interval apart, whatever polls in between
/// returned `Pending`.
pub proof fn lemma_delay_items_spaced<T>(
    a: RateLimitIter<T>,
    b: RateLimitIter<T>,
    t1: u64,
    t2: u64,
)
    requires
        a.wf(),
        a.behavior() == MissedTickBehavior::Delay,
        a.state() != PaceState::Exhausted,
        tick_step(a.state(), a.behavior(), a.interval(), t1).1 == Tick::Fire,
        b.state() == tick_step(a.state(), a.behavior(), a.interval(), t1).0,
        b.behavior() == a.behavior(),
        b.interval() == a.interval(),
        t1 <= t2,
        tick_step(b.state(), b.behavior(), b.interval(), t2).1 == Tick::Fire,
    ensures
        t2 >= saturate(t1 + a.interval()),
{
    if t2 < t1 + a.interval() && t1 + a.interval() <= u64::MAX {
        lemma_delay_spacing(a.state(), a.interval(), t1, t2);
    }
}

} // verus!
