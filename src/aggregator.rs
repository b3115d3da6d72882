use crate::reading::{decoded_reading, parse_reading, DecodeError};
use crate::window::{latest, mean_of, Mean, Window};
use vstd::prelude::*;

verus! {

/// Trailing horizon of the short window, in seconds.
pub const SHORT_HORIZON_SECS: u64 = 15;

/// Trailing horizon of the medium window, in seconds.
pub const MEDIUM_HORIZON_SECS: u64 = 60;

/// Trailing horizon of the long window, in seconds.
pub const LONG_HORIZON_SECS: u64 = 300;

/// The number of samples a window over `horizon` seconds keeps when one sample is taken every
/// `interval` seconds: the whole number of intervals in the horizon, and at least one.
pub open spec fn spec_capacity_for(horizon: u64, interval: u64) -> u64
    recommends
        interval > 0,
{
    if horizon / interval == 0 {
        1
    } else {
        horizon / interval
    }
}

/// Window capacity for a horizon and a sampling interval, both in seconds; never zero.
pub fn capacity_for(horizon_secs: u64, interval_secs: u64) -> (c: u64)
    requires
        interval_secs > 0,
    ensures
        c == spec_capacity_for(horizon_secs, interval_secs),
        c >= 1,
{
    let ratio = horizon_secs / interval_secs;
    if ratio == 0 {
        1
    } else {
        ratio
    }
}

/// The current value and the mean of each window, at one point in time.
#[derive(Clone, Copy, Debug)]
pub struct Snapshot {
    pub current: i32,
    pub short: Option<Mean>,
    pub medium: Option<Mean>,
    pub long: Option<Mean>,
}

/// The latest sample and the three windows over the short, medium and long horizons.
pub struct Aggregator {
    current: i32,
    short: Window,
    medium: Window,
    long: Window,
}

impl Aggregator {
    pub closed spec fn wf(&self) -> bool {
        &&& self.short.wf()
        &&& self.medium.wf()
        &&& self.long.wf()
    }

    pub closed spec fn spec_current(&self) -> i32 {
        self.current
    }

    pub closed spec fn spec_short(&self) -> Window {
        self.short
    }

    pub closed spec fn spec_medium(&self) -> Window {
        self.medium
    }

    pub closed spec fn spec_long(&self) -> Window {
        self.long
    }

    /// A fresh state for one sample every `interval_secs` seconds: every window empty and the
    /// current value zero.
    pub fn new(interval_secs: u64) -> (a: Aggregator)
        requires
            interval_secs > 0,
        ensures
            a.wf(),
            a.spec_current() == 0,
            a.spec_short()@ == Seq::<i32>::empty(),
            a.spec_medium()@ == Seq::<i32>::empty(),
            a.spec_long()@ == Seq::<i32>::empty(),
            a.spec_short().spec_capacity() == spec_capacity_for(SHORT_HORIZON_SECS, interval_secs),
            a.spec_medium().spec_capacity() == spec_capacity_for(
                MEDIUM_HORIZON_SECS,
                interval_secs,
            ),
            a.spec_long().spec_capacity() == spec_capacity_for(LONG_HORIZON_SECS, interval_secs),
    {
        Aggregator {
            current: 0,
            short: Window::new(capacity_for(SHORT_HORIZON_SECS, interval_secs)),
            medium: Window::new(capacity_for(MEDIUM_HORIZON_SECS, interval_secs)),
            long: Window::new(capacity_for(LONG_HORIZON_SECS, interval_secs)),
        }
    }

    /// The latest sample pushed, zero before the first.
    pub fn current(&self) -> (c: i32)
        ensures
            c == self.spec_current(),
    {
        self.current
    }

    /// The window over the short horizon.
    pub fn short(&self) -> (w: &Window)
        ensures
            *w == self.spec_short(),
    {
        &self.short
    }

    /// The window over the medium horizon.
    pub fn medium(&self) -> (w: &Window)
        ensures
            *w == self.spec_medium(),
    {
        &self.medium
    }

    /// The window over the long horizon.
    pub fn long(&self) -> (w: &Window)
        ensures
            *w == self.spec_long(),
    {
        &self.long
    }

    /// Records `sample` as the current value and slides it into every window.
    pub fn push(&mut self, sample: i32)
        requires
            old(self).wf(),
        ensures
            final(self).wf(),
            pushed(*old(self), *final(self), sample),
    {
        self.current = sample;
        self.short.push(sample);
        self.medium.push(sample);
        self.long.push(sample);
    }

    /// The current value and the mean of each window; an empty window has no mean.
    pub fn snapshot(&self) -> (s: Snapshot)
        requires
            self.wf(),
        ensures
            snapshot_of(s, *self),
    {
        Snapshot {
            current: self.current,
            short: self.short.mean(),
            medium: self.medium.mean(),
            long: self.long.mean(),
        }
    }

    /// One sampling tick on the sensor's raw text: a reading that decodes is pushed and the
    /// new snapshot returned; one that does not is skipped, leaving the state as it was.
    pub fn tick(&mut self, raw: &[u8]) -> (r: Result<Snapshot, DecodeError>)
        requires
            old(self).wf(),
        ensures
            final(self).wf(),
            match decoded_reading(raw@) {
                Ok(v) => pushed(*old(self), *final(self), v) && (r matches Ok(s) && snapshot_of(
                    s,
                    *final(self),
                )),
                Err(e) => *final(self) == *old(self) && r == Err::<Snapshot, DecodeError>(e),
            },
    {
        match parse_reading(raw) {
            Ok(v) => {
                self.push(v);
                Ok(self.snapshot())
            },
            Err(e) => Err(e),
        }
    }
}

/// `next` is `prev` after pushing `sample`: it is the current value, and each window keeps the
/// most recent of its samples and `sample`, up to its unchanged capacity.
pub open spec fn pushed(prev: Aggregator, next: Aggregator, sample: i32) -> bool {
    &&& next.spec_current() == sample
    &&& slid(prev.spec_short(), next.spec_short(), sample)
    &&& slid(prev.spec_medium(), next.spec_medium(), sample)
    &&& slid(prev.spec_long(), next.spec_long(), sample)
}

/// `next` is window `prev` after pushing `sample`.
pub open spec fn slid(prev: Window, next: Window, sample: i32) -> bool {
    &&& next.spec_capacity() == prev.spec_capacity()
    &&& next@ == latest(prev@.push(sample), prev.spec_capacity() as nat)
}

/// `s` shows the current value of `a` and the mean of each of its windows.
pub open spec fn snapshot_of(s: Snapshot, a: Aggregator) -> bool {
    &&& s.current == a.spec_current()
    &&& mean_of(s.short, a.spec_short()@)
    &&& mean_of(s.medium, a.spec_medium()@)
    &&& mean_of(s.long, a.spec_long()@)
}

} // verus!
