//! Pacing of log output and watching of stream pauses. Times are in microseconds.

use vstd::prelude::*;

verus! {

/// Notices pauses in a stream of packets.
#[derive(Clone, Copy)]
pub struct GapMeter {
    /// Longest pause that is not worth a note.
    pub limit: u64,
    /// When the last packet came.
    pub last: Option<u64>,
}

impl GapMeter {
    pub fn new(limit: u64) -> (g: Self)
        ensures
            g.limit == limit,
            g.last is None,
    {
        GapMeter { limit, last: None }
    }

    /// The clock has not gone back behind the last packet.
    pub open spec fn clock_ok(self, now: u64) -> bool {
        self.last matches Some(t) ==> t <= now
    }

    /// The pause that ends with a packet at `now`, if it is longer than the limit.
    pub open spec fn gap(self, now: u64) -> Option<u64> {
        match self.last {
            Some(t) => if now - t > self.limit {
                Some((now - t) as u64)
            } else {
                None
            },
            None => None,
        }
    }

    /// A packet came at `now`. Returns the pause before it where that was longer than the limit.
    pub fn tick(&mut self, now: u64) -> (r: Option<u64>)
        requires
            old(self).clock_ok(now),
        ensures
            r == old(self).gap(now),
            *final(self) == (GapMeter { last: Some(now), ..*old(self) }),
    {
        let r: Option<u64> = match self.last {
            Some(t) => if now - t > self.limit {
                Some(now - t)
            } else {
                None
            },
            None => None,
        };
        self.last = Some(now);
        r
    }
}

/// Lets one event through per interval, with the number of events since the one before.
#[derive(Clone, Copy)]
pub struct Sampler {
    pub interval: u64,
    /// When an event was last let through.
    pub last: Option<u64>,
    /// Events since then.
    pub skipped: u32,
}

/// A 32-bit counter one further on.
pub open spec fn counted(n: u32) -> u32 {
    if n == u32::MAX {
        0
    } else {
        (n + 1) as u32
    }
}

impl Sampler {
    pub fn new(interval: u64) -> (s: Self)
        ensures
            s.interval == interval,
            s.last is None,
            s.skipped == 0,
    {
        Sampler { interval, last: None, skipped: 0 }
    }

    /// The clock has not gone back behind the last event.
    pub open spec fn clock_ok(self, now: u64) -> bool {
        self.last matches Some(t) ==> t <= now
    }

    /// An event at `now` is let through: the first, and then one that comes at least an interval
    /// after the last that was.
    pub open spec fn due(self, now: u64) -> bool {
        self.last matches Some(t) ==> now - t >= self.interval
    }

    /// The sampler after an event at `now`.
    pub open spec fn after(self, now: u64) -> Sampler {
        if self.due(now) {
            Sampler { last: Some(now), skipped: 0, ..self }
        } else {
            Sampler { skipped: counted(self.skipped), ..self }
        }
    }

    /// The number of events held back since the last one let through, where the event at `now` is
    /// let through.
    pub open spec fn note(self, now: u64) -> Option<u32> {
        if self.due(now) {
            Some(self.skipped)
        } else {
            None
        }
    }

    /// An event at `now`. Returns the number of events held back since the last one let through,
    /// or `None` where this one is held back too.
    pub fn sample(&mut self, now: u64) -> (r: Option<u32>)
        requires
            old(self).clock_ok(now),
        ensures
            r == old(self).note(now),
            *final(self) == old(self).after(now),
    {
        let held: bool = match self.last {
            Some(t) => now - t < self.interval,
            None => false,
        };
        if held {
            self.skipped = self.skipped.wrapping_add(1);
            None
        } else {
            let n: u32 = self.skipped;
            self.last = Some(now);
            self.skipped = 0;
            Some(n)
        }
    }

    /// The sampler after an event at `now` that is let through whenever it comes.
    pub open spec fn passed(self, now: u64) -> Sampler {
        Sampler { last: Some(now), skipped: 0, ..self }
    }

    /// An event at `now` that is let through whenever it comes. Returns the number of events held
    /// back since the last one let through.
    pub fn pass(&mut self, now: u64) -> (n: u32)
        ensures
            n == old(self).skipped,
            *final(self) == old(self).passed(now),
    {
        let n: u32 = self.skipped;
        self.last = Some(now);
        self.skipped = 0;
        n
    }
}

/// Two events let through are at least the interval apart, and no event goes uncounted: one that
/// is held back raises the number that the next one let through comes with.
pub proof fn law_samples_are_spaced(s: Sampler, now: u64, later: u64)
    requires
        s.clock_ok(now),
        now <= later,
        s.skipped < u32::MAX,
    ensures
        s.due(now) ==> (s.after(now).due(later) <==> later - now >= s.interval),
        s.due(now) ==> s.after(now).skipped == 0,
        !s.due(now) ==> s.after(now).skipped == s.skipped + 1,
        !s.due(now) && s.due(later) ==> s.after(now).note(later) == Some((s.skipped + 1) as u32),
{
}

/// A counter goes up by one, and from its end back to zero.
pub proof fn law_counter_steps_by_one(n: u32)
    ensures
        n < 0xffff_ffff ==> counted(n) == n + 1,
        n == 0xffff_ffff ==> counted(n) == 0,
{
}

/// A pause is noted exactly where two packets are further apart than the limit, and with its
/// length; the first packet ends none.
pub proof fn law_only_long_pauses_noted(limit: u64, t: u64, now: u64)
    requires
        t <= now,
    ensures
        (GapMeter { limit, last: None }).gap(now) is None,
        now - t <= limit ==> (GapMeter { limit, last: Some(t) }).gap(now) is None,
        now - t > limit ==> (GapMeter { limit, last: Some(t) }).gap(now) == Some((now - t) as u64),
{
}

/// The first event is let through; after one at `t`, one that comes before `t + interval` is held
/// back and counted, and one that comes at that time or later is let through with the count. One
/// that must not be held back comes with the count whenever it comes, and the interval runs from
/// it.
pub proof fn law_sampler_by_time(interval: u64, t: u64, skipped: u32, now: u64)
    requires
        t <= now,
        skipped < 0xffff_ffff,
    ensures
        ({
            let s = Sampler { interval, last: Some(t), skipped };
            let held = Sampler { interval, last: Some(t), skipped: (skipped + 1) as u32 };
            let through = Sampler { interval, last: Some(now), skipped: 0 };
            &&& now - t < interval ==> s.note(now) is None && s.after(now) == held
            &&& now - t >= interval ==> s.note(now) == Some(skipped) && s.after(now) == through
            &&& s.passed(now) == through
        }),
        ({
            let s = Sampler { interval, last: None, skipped };
            let through = Sampler { interval, last: Some(now), skipped: 0 };
            &&& s.note(now) == Some(skipped)
            &&& s.after(now) == through
            &&& s.passed(now) == through
        }),
{
}

} // verus!
