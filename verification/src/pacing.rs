//! When frames are shown. Times are in microseconds from one fixed moment.

use vstd::prelude::*;

verus! {

/// What the main loop waits for before it looks for a frame.
#[derive(Clone, Copy, Debug, PartialEq, Eq, Structural)]
pub enum FrameWait {
    /// Nothing: only look.
    Look,
    /// So many microseconds.
    Micros(u64),
    /// So many milliseconds.
    Millis(u32),
}

/// How captured and generated frames are spread.
#[derive(Clone, Copy, Debug, PartialEq, Eq, Structural)]
pub struct Pacing {
    /// Frames shown a second.
    pub target_fps: u32,
    /// Frames captured a second.
    pub source_fps: u32,
    /// From frame to frame.
    pub interval: u64,
    /// How many frames are generated for one that is captured.
    pub synths_per_real: u32,
    /// When the next frame is to be generated.
    pub deadline: u64,
    /// How many were generated since the last captured one.
    pub synths: u32,
}

/// The number, at least 1.
pub open spec fn at_least_one(n: int) -> int {
    if n < 1 {
        1
    } else {
        n
    }
}

/// The rate that `auto` stands for: twice that of the capture, but not over 240.
pub open spec fn auto_rate(fps: int) -> int {
    if 2 * fps < 240 {
        2 * fps
    } else {
        240
    }
}

/// The rate that a setting stands for; 0 is `auto`.
pub open spec fn rate_of(asked: int, fps: int) -> int {
    if asked > 0 {
        asked
    } else {
        auto_rate(fps)
    }
}

/// From frame to frame at a rate.
pub open spec fn interval_of(rate: int) -> int {
    1_000_000int / at_least_one(rate)
}

/// How many frames are generated for one that is captured.
pub open spec fn synths_of(rate: int, source: int) -> int {
    at_least_one((rate + source - 1) / source) - 1
}

fn to_rate(asked: u32, fps: u32) -> (r: u32)
    ensures
        r == rate_of(asked as int, fps as int),
{
    if asked > 0 {
        asked
    } else if fps < 120 {
        2 * fps
    } else {
        240
    }
}

fn to_interval(rate: u32) -> (r: u64)
    ensures
        r == interval_of(rate as int),
        r <= 1_000_000,
{
    let d: u32 = if rate < 1 {
        1
    } else {
        rate
    };
    (1_000_000 / d) as u64
}

fn to_synths(rate: u32, source: u32) -> (r: u32)
    requires
        source >= 1,
    ensures
        r == synths_of(rate as int, source as int),
        r < u32::MAX,
{
    let q: u64 = (rate as u64 + source as u64 - 1) / source as u64;
    proof {
        lemma_synths(rate as int, source as int);
    }
    if q < 1 {
        0
    } else {
        (q - 1) as u32
    }
}

proof fn lemma_synths(rate: int, source: int)
    requires
        0 <= rate,
        1 <= source,
    ensures
        0 <= (rate + source - 1) / source <= rate,
        rate >= 1 ==> 1 <= (rate + source - 1) / source,
        rate == 0 ==> (rate + source - 1) / source == 0,
        ((rate + source - 1) / source) * source >= rate,
        rate >= 1 ==> ((rate + source - 1) / source - 1) * source < rate,
{
    let q = (rate + source - 1) / source;
    vstd::arithmetic::div_mod::lemma_fundamental_div_mod(rate + source - 1, source);
    let m = (rate + source - 1) % source;
    assert(0 <= m < source);
    assert(rate + source - 1 == source * q + m);
    assert(source * q == q * source) by (nonlinear_arith);
    assert(q >= 0 && q <= rate) by (nonlinear_arith)
        requires
            rate + source - 1 == source * q + m,
            0 <= m < source,
            1 <= source,
            0 <= rate,
    ;
    if rate >= 1 {
        assert(q >= 1) by (nonlinear_arith)
            requires
                rate + source - 1 == source * q + m,
                0 <= m < source,
                1 <= source,
                1 <= rate,
        ;
    } else {
        assert(q == 0) by (nonlinear_arith)
            requires
                source - 1 == source * q + m,
                0 <= m < source,
                1 <= source,
                q >= 0,
        ;
    }
    assert((q - 1) * source == q * source - source) by (nonlinear_arith);
}

impl Pacing {
    /// What the fields say of each other.
    pub open spec fn wf(&self) -> bool {
        &&& self.source_fps >= 1
        &&& self.interval == interval_of(self.target_fps as int)
        &&& self.synths_per_real == synths_of(self.target_fps as int, self.source_fps as int)
    }

    /// Spreads frames as the settings ask.
    pub fn new(asked: u32, fps: u32, now: u64) -> (r: Pacing)
        ensures
            r.wf(),
            r.target_fps == rate_of(asked as int, fps as int),
            r.source_fps == at_least_one(fps as int),
            r.deadline == now,
            r.synths == 0,
    {
        let target_fps: u32 = to_rate(asked, fps);
        let source_fps: u32 = if fps < 1 {
            1
        } else {
            fps
        };
        Pacing {
            target_fps,
            source_fps,
            interval: to_interval(target_fps),
            synths_per_real: to_synths(target_fps, source_fps),
            deadline: now,
            synths: 0,
        }
    }

    /// Takes the rate that was chosen in the menu, 0 for `auto`, and tells
    /// whether it is new.
    pub fn set_target(&mut self, asked: u32) -> (r: bool)
        requires
            old(self).wf(),
        ensures
            final(self).wf(),
            r == (asked != old(self).target_fps),
            !r ==> *final(self) == *old(self),
            r ==> final(self).target_fps == rate_of(asked as int, old(self).source_fps as int),
            final(self).source_fps == old(self).source_fps,
            final(self).deadline == old(self).deadline,
            final(self).synths == old(self).synths,
    {
        if asked == self.target_fps {
            return false;
        }
        self.target_fps = to_rate(asked, self.source_fps);
        self.interval = to_interval(self.target_fps);
        self.synths_per_real = to_synths(self.target_fps, self.source_fps);
        true
    }

    /// How long to wait for a captured frame: until the next frame is to be
    /// generated, or for one frame of the capture where none is.
    pub fn wait(&self, generating: bool, now: u64) -> (r: FrameWait)
        requires
            self.wf(),
        ensures
            r == (if !generating {
                FrameWait::Millis((1000int / self.source_fps as int) as u32)
            } else if now >= self.deadline {
                FrameWait::Look
            } else {
                FrameWait::Micros((self.deadline - now) as u64)
            }),
    {
        if !generating {
            FrameWait::Millis(1000 / self.source_fps)
        } else if now >= self.deadline {
            FrameWait::Look
        } else {
            FrameWait::Micros(self.deadline - now)
        }
    }

    /// Whether a frame is to be generated now.
    pub fn is_due(&self, captured: bool, generating: bool, now: u64) -> (r: bool)
        ensures
            r == (!captured && generating && now >= self.deadline),
    {
        !captured && generating && now >= self.deadline
    }

    /// Whether another frame is to be generated right after a captured one was
    /// shown: showing it may have taken so long that the next is due already.
    pub fn is_due_after(&self, can_generate: bool, now: u64) -> (r: bool)
        ensures
            r == (can_generate && now >= self.deadline),
    {
        can_generate && now >= self.deadline
    }

    /// Notes that a frame was shown: one that was captured, or a generated one
    /// or none at all.
    pub fn presented(&mut self, captured: bool, generating: bool, now: u64)
        requires
            old(self).wf(),
            now <= u64::MAX - 1_000_000,
            old(self).deadline <= u64::MAX - 1_000_000,
        ensures
            *final(self) == (Pacing {
                deadline: next_deadline(
                    old(self).deadline as int,
                    old(self).interval as int,
                    captured || !generating,
                    now as int,
                ) as u64,
                ..*old(self)
            }),
    {
        assert(self.interval <= 1_000_000) by {
            lemma_interval(self.target_fps as int);
        }
        if captured || !generating {
            self.deadline = now + self.interval;
        } else {
            self.deadline = self.deadline + self.interval;
            if self.deadline < now {
                self.deadline = now + self.interval;
            }
        }
    }

    /// Notes that a captured frame was drawn.
    pub fn drew_captured(&mut self)
        ensures
            *final(self) == (Pacing { synths: 0, ..*old(self) }),
    {
        self.synths = 0;
    }

    /// Counts a frame that is generated now and tells where it lies between two
    /// captured ones, as a fraction.
    pub fn next_synth(&mut self) -> (r: (u32, u32))
        requires
            old(self).wf(),
            old(self).synths < u32::MAX,
            old(self).synths_per_real < u32::MAX,
        ensures
            *final(self) == (Pacing { synths: (old(self).synths + 1) as u32, ..*old(self) }),
            r == ((old(self).synths + 1) as u32, (old(self).synths_per_real + 1) as u32),
    {
        self.synths = self.synths + 1;
        (self.synths, self.synths_per_real + 1)
    }

    /// Whether frames stutter: more than one and a half frames of the capture
    /// went by from one to the next.
    pub fn is_stutter(&self, gap: u64) -> (r: bool)
        requires
            self.wf(),
        ensures
            r == (gap > (1_000_000int / self.source_fps as int) * 3 / 2),
    {
        let expected: u64 = 1_000_000 / self.source_fps as u64;
        gap > expected * 3 / 2
    }
}

proof fn lemma_interval(rate: int)
    requires
        rate >= 0,
    ensures
        0 <= interval_of(rate) <= 1_000_000,
{
    let d = at_least_one(rate);
    assert(0 <= 1_000_000int / d <= 1_000_000) by (nonlinear_arith)
        requires
            d >= 1,
    ;
}

/// When the next frame is to be generated: an interval after a captured one was
/// shown; after a generated one, an interval after that was due, or after it was
/// shown where that has passed.
pub open spec fn next_deadline(deadline: int, interval: int, fresh: bool, now: int) -> int {
    if fresh || deadline + interval < now {
        now + interval
    } else {
        deadline + interval
    }
}

/// The next frame is never due in the past, so that lost time is not made up in
/// a burst; and while frames are in time they stay on their grid.
pub proof fn law_deadlines(deadline: int, interval: int, fresh: bool, now: int)
    requires
        0 <= interval,
    ensures
        now <= next_deadline(deadline, interval, fresh, now),
        deadline <= now ==> next_deadline(deadline, interval, fresh, now) <= now + interval,
        !fresh && now <= deadline + interval ==> next_deadline(deadline, interval, fresh, now)
            == deadline + interval,
{
}

/// With its generated frames every captured one makes up the rate that is asked
/// for, and with one less it would not.
pub proof fn law_generated_frames_reach_the_rate(rate: int, source: int)
    requires
        1 <= rate,
        1 <= source,
    ensures
        (synths_of(rate, source) + 1) * source >= rate,
        synths_of(rate, source) * source < rate,
{
    lemma_synths(rate, source);
}

} // verus!
