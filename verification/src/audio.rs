//! Audio from a source to the speakers: finding the source, probing it, the
//! volume, and the state of the two ways in which sound is passed on.

use vstd::prelude::*;

use crate::config::AudioMode;
use crate::pw_link::PwLinkState;
use crate::text;

verus! {

/// A source as the sound server lists it.
pub struct Source {
    pub name: Option<String>,
    pub description: Option<String>,
}

/// The text of an optional string, empty where there is none.
pub open spec fn text_or_empty(s: Option<String>) -> Seq<char> {
    match s {
        Some(t) => t@,
        None => Seq::empty(),
    }
}

/// Whether a source answers to a query: it has a name, and its description or
/// its name holds the query, whatever the case.
pub open spec fn answers(s: Source, query: Seq<char>) -> bool {
    s.name is Some && (text::occurs(text::lower(text_or_empty(s.description)), text::lower(query))
        || text::occurs(text::lower(text_or_empty(s.name)), text::lower(query)))
}

fn holds(hay: &str, needle: &[char]) -> (r: bool)
    ensures
        r == text::occurs(text::lower(hay@), needle@),
{
    text::contains(text::to_lower(text::chars_of(hay).as_slice()).as_slice(), needle)
}

/// Finds the first source that answers to a query and gives its name; `None`
/// where none answers.
pub fn resolve_source(sources: &[Source], query: &str) -> (r: Option<String>)
    ensures
        match r {
            Some(name) => exists|i: int|
                {
                    &&& 0 <= i < sources@.len()
                    &&& answers(#[trigger] sources@[i], query@)
                    &&& name@ == text_or_empty(sources@[i].name)
                    &&& forall|j: int| 0 <= j < i ==> !answers(#[trigger] sources@[j], query@)
                },
            None => forall|j: int| 0 <= j < sources@.len() ==> !answers(#[trigger] sources@[j], query@),
        },
{
    let needle = text::to_lower(text::chars_of(query).as_slice());
    let mut i: usize = 0;
    while i < sources.len()
        invariant
            i <= sources@.len(),
            needle@ == text::lower(query@),
            forall|j: int| 0 <= j < i ==> !answers(#[trigger] sources@[j], query@),
        decreases sources@.len() - i,
    {
        if let Some(name) = &sources[i].name {
            let by_description = match &sources[i].description {
                Some(d) => holds(d.as_str(), needle.as_slice()),
                None => {
                    let none: Vec<char> = Vec::new();
                    assert(none@ =~= Seq::empty());
                    text::contains(text::to_lower(none.as_slice()).as_slice(), needle.as_slice())
                },
            };
            if by_description || holds(name.as_str(), needle.as_slice()) {
                let found = text::string_of(text::chars_of(name.as_str()).as_slice());
                assert(answers(sources@[i as int], query@));
                return Some(found);
            }
        }
        assert(!answers(sources@[i as int], query@));
        i += 1;
    }
    None
}

/// How a connection to the sound server stands.
#[derive(Clone, Copy, Debug, PartialEq, Eq, Structural)]
pub enum Connection {
    Pending,
    Ready,
    Failed,
}

/// Reads the state of a connection to the sound server.
pub fn connection(state: i32) -> (r: Connection)
    ensures
        r == (if state == 4 {
            Connection::Ready
        } else if state == 5 || state == 6 {
            Connection::Failed
        } else {
            Connection::Pending
        }),
{
    if state == 4 {
        Connection::Ready
    } else if state == 5 || state == 6 {
        Connection::Failed
    } else {
        Connection::Pending
    }
}

/// 48 kHz, two channels, two bytes a sample.
pub const BYTES_PER_MS: u32 = 192;

/// How many bytes a buffer of so many milliseconds has.
pub fn buffer_bytes(ms: u32) -> (r: u32)
    requires
        ms * BYTES_PER_MS <= u32::MAX,
    ensures
        r == ms * 192,
{
    ms * BYTES_PER_MS
}

/// The value of a sample: sixteen bits, low byte first, two's complement.
pub open spec fn sample(lo: u8, hi: u8) -> int {
    if lo + 256 * hi < 32768 {
        lo + 256 * hi
    } else {
        lo + 256 * hi - 65536
    }
}

/// The samples that bytes hold; an odd last byte belongs to none.
pub open spec fn samples(b: Seq<u8>) -> Seq<int> {
    Seq::new(b.len() / 2, |i: int| sample(b[2 * i], b[2 * i + 1]))
}

fn sample_of(lo: u8, hi: u8) -> (r: i32)
    ensures
        r == sample(lo, hi),
        -32768 <= r <= 32767,
{
    let v: i32 = lo as i32 + 256 * hi as i32;
    if v < 32768 {
        v
    } else {
        v - 65536
    }
}

/// How many samples are at the end of their range.
pub open spec fn clipped(s: Seq<int>) -> nat
    decreases s.len(),
{
    if s.len() == 0 {
        0
    } else {
        clipped(s.drop_last()) + (if s.last() == 32767 || s.last() == -32768 {
            1nat
        } else {
            0
        })
    }
}

/// How many samples up to and with this one repeat the value before them; the
/// first sample counts as repeating itself, silence never.
pub open spec fn stuck(s: Seq<int>, i: int) -> nat
    decreases i,
{
    if i < 0 || s[i] == 0 {
        0
    } else if i == 0 {
        1
    } else if s[i] == s[i - 1] {
        stuck(s, i - 1) + 1
    } else {
        0
    }
}

/// The longest such stretch among the first `n` samples.
pub open spec fn longest_stuck(s: Seq<int>, n: int) -> nat
    decreases n,
{
    if n <= 0 {
        0
    } else {
        let before = longest_stuck(s, n - 1);
        if stuck(s, n - 1) > before {
            stuck(s, n - 1)
        } else {
            before
        }
    }
}

/// Whether samples look like garbage: more than 30 per cent at the end of their
/// range, or one value for more than half of them on end. Percentages are
/// rounded down.
pub open spec fn corrupt(s: Seq<int>) -> bool {
    s.len() > 0 && (clipped(s) * 100 / s.len() > 30 || longest_stuck(s, s.len() as int) * 100
        / s.len() > 50)
}

proof fn lemma_counts(s: Seq<int>, n: int)
    requires
        0 <= n <= s.len(),
    ensures
        clipped(s.take(n)) <= n,
        longest_stuck(s, n) <= n,
        n > 0 ==> stuck(s, n - 1) <= n,
    decreases n,
{
    if n > 0 {
        lemma_counts(s, n - 1);
        assert(s.take(n).drop_last() =~= s.take(n - 1));
    }
}

/// Checks whether a buffer of samples looks like garbage.
pub fn probe_is_corrupt(buf: &[u8]) -> (r: bool)
    ensures
        r == corrupt(samples(buf@)),
{
    let len: usize = buf.len();
    let n: usize = len / 2;
    let ghost s = samples(buf@);
    if n == 0 {
        return false;
    }
    let mut clip: usize = 0;
    let mut run: usize = 0;
    let mut longest: usize = 0;
    let mut prev: i32 = sample_of(buf[0], buf[1]);
    let mut i: usize = 0;
    while i < n
        invariant
            i <= n,
            len == buf@.len(),
            n == len / 2,
            n > 0,
            s == samples(buf@),
            clip == clipped(s.take(i as int)),
            i > 0 ==> run == stuck(s, i - 1),
            i == 0 ==> run == 0,
            longest == longest_stuck(s, i as int),
            prev == s[if i == 0 {
                0
            } else {
                i - 1
            }],
        decreases n - i,
    {
        let v: i32 = sample_of(buf[2 * i], buf[2 * i + 1]);
        proof {
            assert(v == s[i as int]);
            assert(s.take(i + 1).drop_last() =~= s.take(i as int));
            lemma_counts(s, i as int);
        }
        if v == 32767 || v == -32768 {
            clip += 1;
        }
        if v == prev && v != 0 {
            run += 1;
            if run > longest {
                longest = run;
            }
        } else {
            run = 0;
        }
        prev = v;
        i += 1;
    }
    proof {
        assert(s.take(n as int) =~= s);
        lemma_counts(s, n as int);
    }
    clip as u128 * 100 / n as u128 > 30 || longest as u128 * 100 / n as u128 > 50
}

/// A quotient rounded towards zero.
pub open spec fn toward_zero(n: int, d: int) -> int {
    if n >= 0 {
        n / d
    } else {
        -((-n) / d)
    }
}

/// A sample at so many per cent of its volume, kept in its range.
pub open spec fn at_volume(s: int, vol: int) -> int {
    let v = toward_zero(s * vol, 100);
    if v < -32768 {
        -32768
    } else if v > 32767 {
        32767
    } else {
        v
    }
}

fn scale_sample(s: i32, vol: i32) -> (r: i32)
    requires
        -32768 <= s <= 32767,
    ensures
        r == at_volume(s as int, vol as int),
        -32768 <= r <= 32767,
{
    assert(-70368744177664 <= s * vol <= 70368744177664) by (nonlinear_arith)
        requires
            -32768 <= s <= 32768,
            -2147483648 <= vol <= 2147483648,
    ;
    let p: i64 = s as i64 * vol as i64;
    let v: i64 = if p >= 0 {
        p / 100
    } else {
        -((-p) / 100)
    };
    if v < -32768 {
        -32768
    } else if v > 32767 {
        32767
    } else {
        v as i32
    }
}

/// Scales the samples of a buffer in place.
pub fn apply_volume(buf: &mut [u8], vol: i32)
    ensures
        final(buf)@.len() == old(buf)@.len(),
        vol == 100 ==> final(buf)@ == old(buf)@,
        vol != 100 ==> samples(final(buf)@) == Seq::new(
            samples(old(buf)@).len(),
            |i: int| at_volume(samples(old(buf)@)[i], vol as int),
        ),
        old(buf)@.len() % 2 == 1 ==> final(buf)@.last() == old(buf)@.last(),
{
    if vol == 100 {
        return;
    }
    let ghost b0 = buf@;
    let len: usize = buf.len();
    let n: usize = len / 2;
    let mut i: usize = 0;
    while i < n
        invariant
            i <= n,
            len == b0.len(),
            n == len / 2,
            buf@.len() == b0.len(),
            forall|k: int| 2 * i <= k < b0.len() ==> buf@[k] == b0[k],
            forall|k: int|
                0 <= k < i ==> sample(#[trigger] buf@[2 * k], buf@[2 * k + 1]) == at_volume(
                    sample(b0[2 * k], b0[2 * k + 1]),
                    vol as int,
                ),
        decreases n - i,
    {
        let lo: u8 = buf[2 * i];
        let hi: u8 = buf[2 * i + 1];
        let v: i32 = scale_sample(sample_of(lo, hi), vol);
        let u: i32 = if v < 0 {
            v + 65536
        } else {
            v
        };
        let new_lo: u8 = (u % 256) as u8;
        let new_hi: u8 = (u / 256) as u8;
        let ghost before = buf@;
        buf[2 * i] = new_lo;
        buf[2 * i + 1] = new_hi;
        proof {
            assert(sample(new_lo, new_hi) == v);
            assert forall|k: int| 0 <= k < i + 1 implies sample(
                #[trigger] buf@[2 * k],
                buf@[2 * k + 1],
            ) == at_volume(sample(b0[2 * k], b0[2 * k + 1]), vol as int) by {
                if k < i {
                    assert(buf@[2 * k] == before[2 * k]);
                    assert(buf@[2 * k + 1] == before[2 * k + 1]);
                }
            }
        }
        i += 1;
    }
    proof {
        assert forall|k: int| 0 <= k < n implies samples(buf@)[k] == at_volume(
            samples(b0)[k],
            vol as int,
        ) by {
            assert(sample(buf@[2 * k], buf@[2 * k + 1]) == at_volume(
                sample(b0[2 * k], b0[2 * k + 1]),
                vol as int,
            ));
        }
    }
}

/// Makes a captured buffer what is to be played, and tells whether it also goes
/// to the virtual microphone: muted sound is silence and goes nowhere else.
pub fn render(buf: &mut [u8], muted: bool, vol: i32) -> (r: bool)
    ensures
        r == !muted,
        final(buf)@.len() == old(buf)@.len(),
        muted ==> forall|i: int| 0 <= i < final(buf)@.len() ==> final(buf)@[i] == 0,
        !muted && vol == 100 ==> final(buf)@ == old(buf)@,
        !muted && vol != 100 ==> samples(final(buf)@) == Seq::new(
            samples(old(buf)@).len(),
            |i: int| at_volume(samples(old(buf)@)[i], vol as int),
        ),
        !muted && old(buf)@.len() % 2 == 1 ==> final(buf)@.last() == old(buf)@.last(),
{
    if muted {
        let n: usize = buf.len();
        let mut i: usize = 0;
        while i < n
            invariant
                i <= n,
                n == buf@.len() == old(buf)@.len(),
                forall|k: int| 0 <= k < i ==> buf@[k] == 0,
            decreases n - i,
        {
            buf[i] = 0;
            i += 1;
        }
        return false;
    }
    apply_volume(buf, vol);
    true
}

/// Whether a read came too late: more than two buffers after the one before.
pub fn is_xrun(elapsed_us: u64, cap_ms: u32) -> (r: bool)
    ensures
        r == (elapsed_us > cap_ms * 2000),
{
    elapsed_us > cap_ms as u64 * 2000
}

/// The volume 100 changes no sample, 0 silences it, and a volume of at most 100
/// never makes it louder.
pub proof fn law_volume(s: int, vol: int)
    requires
        -32768 <= s <= 32767,
        0 <= vol,
    ensures
        -32768 <= at_volume(s, vol) <= 32767,
        at_volume(s, 100) == s,
        at_volume(s, 0) == 0,
        vol <= 100 && s >= 0 ==> 0 <= at_volume(s, vol) <= s,
        vol <= 100 && s <= 0 ==> s <= at_volume(s, vol) <= 0,
{
    if vol <= 100 {
        if s >= 0 {
            assert(0 <= s * vol <= 100 * s) by (nonlinear_arith)
                requires
                    0 <= s,
                    0 <= vol <= 100,
            ;
        } else {
            assert(100 * s <= s * vol <= 0) by (nonlinear_arith)
                requires
                    s <= 0,
                    0 <= vol <= 100,
            ;
        }
    }
}

/// At `vol` per cent a sample is `s * vol / 100`, without the fraction: its
/// size is the largest whole number that is not beyond that, and its sign is
/// that of the product. A product beyond what a sample can hold gives the
/// sample's end.
pub proof fn law_volume_is_in_proportion(s: int, vol: int)
    ensures
        0 <= s * vol < 3276800 ==> {
            &&& 0 <= at_volume(s, vol)
            &&& 100 * at_volume(s, vol) <= s * vol < 100 * (at_volume(s, vol) + 1)
        },
        -3276900 < s * vol <= 0 ==> {
            &&& at_volume(s, vol) <= 0
            &&& 100 * -at_volume(s, vol) <= -(s * vol) < 100 * (-at_volume(s, vol) + 1)
        },
        s * vol >= 3276800 ==> at_volume(s, vol) == 32767,
        s * vol <= -3276900 ==> at_volume(s, vol) == -32768,
{
}

/// More volume never makes a sample quieter, and a sample and its opposite sound
/// equally loud as long as neither meets the end of its range.
pub proof fn law_volume_grows(s: int, low: int, high: int)
    requires
        0 <= low <= high,
    ensures
        s >= 0 ==> 0 <= at_volume(s, low) <= at_volume(s, high),
        s <= 0 ==> at_volume(s, high) <= at_volume(s, low) <= 0,
        -32768 < at_volume(s, high) < 32767 ==> at_volume(-s, high) == -at_volume(s, high),
{
    if s >= 0 {
        assert(0 <= s * low <= s * high) by (nonlinear_arith)
            requires
                0 <= s,
                0 <= low <= high,
        ;
    } else {
        assert(s * high <= s * low <= 0) by (nonlinear_arith)
            requires
                s < 0,
                0 <= low <= high,
        ;
    }
    assert((-s) * high == -(s * high)) by (nonlinear_arith);
}

/// Two bytes hold a sample with the low byte first: they are its two digits to
/// the base 256, and the high bit of the second makes it negative.
pub proof fn law_sample_bytes(lo: u8, hi: u8)
    ensures
        -32768 <= sample(lo, hi) <= 32767,
        sample(lo, hi) % 256 == lo,
        sample(lo, hi) / 256 % 256 == hi,
        sample(lo, hi) < 0 <==> hi >= 128,
{
}

/// What is played at a volume: every pair of bytes is the pair captured there,
/// scaled, and as many bytes as came are played.
pub proof fn law_played_samples_are_scaled(before: Seq<u8>, after: Seq<u8>, vol: int, i: int)
    requires
        after.len() == before.len(),
        samples(after) == Seq::new(
            samples(before).len(),
            |k: int| at_volume(samples(before)[k], vol),
        ),
        0 <= 2 * i < before.len() - 1,
    ensures
        sample(after[2 * i], after[2 * i + 1]) == at_volume(
            sample(before[2 * i], before[2 * i + 1]),
            vol,
        ),
{
    assert(samples(after)[i] == at_volume(samples(before)[i], vol));
}

pub const MAX_PROBE_RETRIES: u32 = 5;

pub const PROBE_FRAMES: usize = 4;

pub const PROBE_RETRY_MS: u64 = 500;

/// What is to be done next while a source is probed.
#[derive(Clone, Copy, Debug, PartialEq, Eq, Structural)]
pub enum ProbeStep {
    /// Open the source.
    Open,
    /// Read a buffer from it.
    Read,
    /// Wait, then go on.
    Wait,
    /// Close the source and wait, then go on.
    CloseAndWait,
    /// The source is clean.
    Ready,
    /// Close the source and give up: it stayed dirty.
    CloseAndFail,
    /// Give up: the source cannot be opened.
    Fail,
    /// Give up: the program ends.
    Stop,
}

/// How far the probing of a source has come.
pub struct Probe {
    /// How many attempts have failed.
    pub attempt: u32,
    /// How many buffers of this attempt were read.
    pub frames: usize,
}

impl Probe {
    /// What holds between the steps.
    pub open spec fn wf(&self) -> bool {
        self.attempt <= MAX_PROBE_RETRIES && self.frames < PROBE_FRAMES
    }

    pub fn new() -> (r: Probe)
        ensures
            r.wf(),
            r.attempt == 0,
            r.frames == 0,
    {
        Probe { attempt: 0, frames: 0 }
    }

    /// Begins an attempt.
    pub fn begin(&mut self, running: bool) -> (r: ProbeStep)
        requires
            old(self).wf(),
        ensures
            r == (if running {
                ProbeStep::Open
            } else {
                ProbeStep::Stop
            }),
            final(self).attempt == old(self).attempt,
            final(self).frames == 0,
    {
        self.frames = 0;
        if running {
            ProbeStep::Open
        } else {
            ProbeStep::Stop
        }
    }

    /// Goes on after the source was opened, or was not.
    pub fn opened(&mut self, ok: bool) -> (r: ProbeStep)
        requires
            old(self).wf(),
        ensures
            final(self).wf(),
            final(self).frames == old(self).frames,
            ok ==> r == ProbeStep::Read && final(self).attempt == old(self).attempt,
            !ok && old(self).attempt < MAX_PROBE_RETRIES ==> r == ProbeStep::Wait && final(self).attempt == old(self).attempt + 1,
            !ok && old(self).attempt == MAX_PROBE_RETRIES ==> r == ProbeStep::Fail && final(self).attempt == old(self).attempt,
    {
        if ok {
            ProbeStep::Read
        } else if self.attempt < MAX_PROBE_RETRIES {
            self.attempt = self.attempt + 1;
            ProbeStep::Wait
        } else {
            ProbeStep::Fail
        }
    }

    /// Goes on after a read, which failed or gave a buffer. The first buffer of
    /// an attempt is not looked at.
    pub fn read(&mut self, ok: bool, buf: &[u8]) -> (r: ProbeStep)
        requires
            old(self).wf(),
        ensures
            final(self).wf(),
            ({
                let dirty = !ok || (old(self).frames > 0 && corrupt(samples(buf@)));
                if !dirty {
                    &&& final(self).attempt == old(self).attempt
                    &&& if old(self).frames + 1 < PROBE_FRAMES {
                        r == ProbeStep::Read && final(self).frames == old(self).frames + 1
                    } else {
                        r == ProbeStep::Ready && final(self).frames == old(self).frames
                    }
                } else {
                    &&& final(self).frames == old(self).frames
                    &&& if old(self).attempt < MAX_PROBE_RETRIES {
                        r == ProbeStep::CloseAndWait && final(self).attempt == old(self).attempt + 1
                    } else {
                        r == ProbeStep::CloseAndFail && final(self).attempt == old(self).attempt
                    }
                }
            }),
    {
        if !ok || (self.frames > 0 && probe_is_corrupt(buf)) {
            if self.attempt < MAX_PROBE_RETRIES {
                self.attempt = self.attempt + 1;
                ProbeStep::CloseAndWait
            } else {
                ProbeStep::CloseAndFail
            }
        } else if self.frames + 1 < PROBE_FRAMES {
            self.frames = self.frames + 1;
            ProbeStep::Read
        } else {
            ProbeStep::Ready
        }
    }
}

/// The state of sound that this program reads and writes.
#[derive(Clone, Copy, Debug, PartialEq, Eq, Structural)]
pub struct CaptureState {
    pub running: bool,
    pub volume: i32,
    pub muted_flag: bool,
    pub capture_buf_ms: i32,
    pub playback_buf_ms: i32,
    pub xruns: u32,
    pub max_volume: i32,
}

/// The state in which capturing starts.
pub open spec fn capture_started(max_volume: u32, capture_buf: u32, playback_buf: u32) -> CaptureState {
    CaptureState {
        running: true,
        volume: 100,
        muted_flag: false,
        capture_buf_ms: capture_buf as i32,
        playback_buf_ms: playback_buf as i32,
        xruns: 0,
        max_volume: max_volume as i32,
    }
}

/// The two ways in which sound is passed on.
pub enum AudioInner {
    Capture(CaptureState),
    Passthrough(PwLinkState),
}

/// Sound from a source to the speakers.
pub struct AudioPassthrough {
    pub inner: AudioInner,
    pub source_name: String,
    pub source_query: String,
    pub max_volume: u32,
    pub capture_buf: u32,
    pub playback_buf: u32,
    pub muted: bool,
    pub mode: AudioMode,
}

/// The lower of two numbers.
pub open spec fn lower_of(a: int, b: int) -> int {
    if a <= b {
        a
    } else {
        b
    }
}

/// A volume kept between 0 and the most that is allowed.
pub open spec fn bounded(v: int, max: int) -> int {
    lower_of(
        if v < 0 {
            0
        } else {
            v
        },
        max,
    )
}

impl AudioPassthrough {
    /// Everything but the inner state, the mute, the buffers and the mode.
    pub open spec fn same_source(&self, o: &AudioPassthrough) -> bool {
        &&& self.source_name == o.source_name
        &&& self.source_query == o.source_query
        &&& self.max_volume == o.max_volume
    }

    /// Nothing but the inner state differs.
    pub open spec fn same_but_inner(&self, o: &AudioPassthrough) -> bool {
        &&& self.same_source(o)
        &&& self.capture_buf == o.capture_buf
        &&& self.playback_buf == o.playback_buf
        &&& self.muted == o.muted
        &&& self.mode == o.mode
    }

    /// Starts passing sound on. The link is what was paired for the second way;
    /// `None` where that way is asked for and nothing was paired.
    pub fn start(
        source_name: String,
        source_query: String,
        max_volume: u32,
        capture_buf: u32,
        playback_buf: u32,
        mode: AudioMode,
        link: Option<PwLinkState>,
    ) -> (r: Option<AudioPassthrough>)
        ensures
            r is None <==> mode == AudioMode::Passthrough && link is None,
            r matches Some(a) ==> a == (AudioPassthrough {
                inner: match mode {
                    AudioMode::Capture => AudioInner::Capture(
                        capture_started(max_volume, capture_buf, playback_buf),
                    ),
                    AudioMode::Passthrough => AudioInner::Passthrough(link->0),
                },
                source_name,
                source_query,
                max_volume,
                capture_buf,
                playback_buf,
                muted: false,
                mode,
            }),
    {
        let inner = match mode {
            AudioMode::Capture => AudioInner::Capture(
                Self::capture(max_volume, capture_buf, playback_buf),
            ),
            AudioMode::Passthrough => match link {
                Some(l) => AudioInner::Passthrough(l),
                None => {
                    return None;
                },
            },
        };
        Some(
            AudioPassthrough {
                inner,
                source_name,
                source_query,
                max_volume,
                capture_buf,
                playback_buf,
                muted: false,
                mode,
            },
        )
    }

    fn capture(max_volume: u32, capture_buf: u32, playback_buf: u32) -> (r: CaptureState)
        ensures
            r == capture_started(max_volume, capture_buf, playback_buf),
    {
        CaptureState {
            running: true,
            volume: 100,
            muted_flag: false,
            capture_buf_ms: capture_buf as i32,
            playback_buf_ms: playback_buf as i32,
            xruns: 0,
            max_volume: max_volume as i32,
        }
    }

    /// The name of the source.
    pub fn source_name(&self) -> (r: &str)
        ensures
            r@ == self.source_name@,
    {
        self.source_name.as_str()
    }

    /// The way in which sound is passed on.
    pub fn mode(&self) -> (r: AudioMode)
        ensures
            r == self.mode,
    {
        self.mode
    }

    /// Changes the way in which sound is passed on: the present one is stopped
    /// and the other started. Tells whether that worked; it does not where the
    /// second way is asked for and nothing was paired for it.
    pub fn set_mode(&mut self, mode: AudioMode, link: Option<PwLinkState>) -> (r: bool)
        ensures
            r == (mode == old(self).mode || mode == AudioMode::Capture || link is Some),
            mode == old(self).mode ==> *final(self) == *old(self),
            mode != old(self).mode ==> {
                &&& final(self).same_source(old(self))
                &&& final(self).capture_buf == old(self).capture_buf
                &&& final(self).playback_buf == old(self).playback_buf
                &&& final(self).muted == old(self).muted
                &&& final(self).mode == mode
                &&& if !r {
                    stopped(old(self).inner, final(self).inner)
                } else {
                    final(self).inner == match mode {
                        AudioMode::Capture => AudioInner::Capture(
                            capture_started(
                                old(self).max_volume,
                                old(self).capture_buf,
                                old(self).playback_buf,
                            ),
                        ),
                        AudioMode::Passthrough => AudioInner::Passthrough(link->0),
                    }
                }
            },
    {
        if mode == self.mode {
            return true;
        }
        self.stop();
        self.mode = mode;
        match mode {
            AudioMode::Capture => {
                self.inner = AudioInner::Capture(
                    Self::capture(self.max_volume, self.capture_buf, self.playback_buf),
                );
                true
            },
            AudioMode::Passthrough => match link {
                Some(l) => {
                    self.inner = AudioInner::Passthrough(l);
                    true
                },
                None => false,
            },
        }
    }

    /// Raises the volume by five, up to the most allowed, and gives it. Where the
    /// sound server passes sound on it stays at 100.
    pub fn volume_up(&mut self) -> (r: i32)
        requires
            old(self).inner matches AudioInner::Capture(c) ==> c.volume <= i32::MAX - 5,
        ensures
            final(self).same_but_inner(old(self)),
            match old(self).inner {
                AudioInner::Capture(c) => {
                    &&& r == lower_of(c.volume + 5, c.max_volume as int)
                    &&& final(self).inner == AudioInner::Capture(CaptureState { volume: r, ..c })
                },
                AudioInner::Passthrough(_) => r == 100 && final(self).inner == old(self).inner,
            },
    {
        match &mut self.inner {
            AudioInner::Capture(c) => {
                let up: i32 = c.volume + 5;
                let v: i32 = if up <= c.max_volume {
                    up
                } else {
                    c.max_volume
                };
                c.volume = v;
                v
            },
            AudioInner::Passthrough(_) => 100,
        }
    }

    /// Lowers the volume by five, down to 0, and gives it.
    pub fn volume_down(&mut self) -> (r: i32)
        requires
            old(self).inner matches AudioInner::Capture(c) ==> c.volume >= i32::MIN + 5,
        ensures
            final(self).same_but_inner(old(self)),
            match old(self).inner {
                AudioInner::Capture(c) => {
                    &&& r == (if c.volume - 5 < 0 {
                        0
                    } else {
                        c.volume - 5
                    })
                    &&& final(self).inner == AudioInner::Capture(CaptureState { volume: r, ..c })
                },
                AudioInner::Passthrough(_) => r == 100 && final(self).inner == old(self).inner,
            },
    {
        match &mut self.inner {
            AudioInner::Capture(c) => {
                let down: i32 = c.volume - 5;
                let v: i32 = if down < 0 {
                    0
                } else {
                    down
                };
                c.volume = v;
                v
            },
            AudioInner::Passthrough(_) => 100,
        }
    }

    /// The volume.
    pub fn volume(&self) -> (r: i32)
        ensures
            r == match self.inner {
                AudioInner::Capture(c) => c.volume,
                AudioInner::Passthrough(_) => 100,
            },
    {
        match &self.inner {
            AudioInner::Capture(c) => c.volume,
            AudioInner::Passthrough(_) => 100,
        }
    }

    /// Sets the volume, within its bounds.
    pub fn set_volume(&mut self, v: i32)
        ensures
            final(self).same_but_inner(old(self)),
            match old(self).inner {
                AudioInner::Capture(c) => final(self).inner == AudioInner::Capture(
                    CaptureState { volume: bounded(v as int, c.max_volume as int) as i32, ..c },
                ),
                AudioInner::Passthrough(_) => final(self).inner == old(self).inner,
            },
    {
        if let AudioInner::Capture(c) = &mut self.inner {
            let low: i32 = if v < 0 {
                0
            } else {
                v
            };
            c.volume = if low <= c.max_volume {
                low
            } else {
                c.max_volume
            };
        }
    }

    /// Whether the sound is muted.
    pub fn is_muted(&self) -> (r: bool)
        ensures
            r == self.muted,
    {
        self.muted
    }

    /// Mutes the sound or ends the mute. Where the sound server passes it on, its
    /// links are broken or made again; `links` tells whether the commands that
    /// make them could be started.
    pub fn set_muted(&mut self, muted: bool, links: bool)
        ensures
            final(self).same_source(old(self)),
            final(self).capture_buf == old(self).capture_buf,
            final(self).playback_buf == old(self).playback_buf,
            final(self).mode == old(self).mode,
            final(self).muted == muted,
            muted_as(old(self).inner, final(self).inner, muted, links),
    {
        self.muted = muted;
        match &mut self.inner {
            AudioInner::Capture(c) => {
                c.muted_flag = muted;
            },
            AudioInner::Passthrough(p) => {
                if muted {
                    let _ = p.unlink();
                } else {
                    p.link(links);
                }
            },
        }
    }

    /// Mutes the sound where it is not muted, ends the mute where it is, and
    /// tells whether it is muted now.
    pub fn toggle_mute(&mut self, links: bool) -> (r: bool)
        ensures
            final(self).same_source(old(self)),
            final(self).capture_buf == old(self).capture_buf,
            final(self).playback_buf == old(self).playback_buf,
            final(self).mode == old(self).mode,
            r == !old(self).muted,
            final(self).muted == r,
            muted_as(old(self).inner, final(self).inner, r, links),
    {
        let muted = !self.muted;
        self.set_muted(muted, links);
        muted
    }

    /// The size of the capture buffer in milliseconds; 0 where the sound server
    /// passes sound on.
    pub fn capture_buf_ms(&self) -> (r: i32)
        ensures
            r == match self.inner {
                AudioInner::Capture(c) => c.capture_buf_ms,
                AudioInner::Passthrough(_) => 0,
            },
    {
        match &self.inner {
            AudioInner::Capture(c) => c.capture_buf_ms,
            AudioInner::Passthrough(_) => 0,
        }
    }

    /// The size of the playback buffer in milliseconds; 0 where the sound server
    /// passes sound on.
    pub fn playback_buf_ms(&self) -> (r: i32)
        ensures
            r == match self.inner {
                AudioInner::Capture(c) => c.playback_buf_ms,
                AudioInner::Passthrough(_) => 0,
            },
    {
        match &self.inner {
            AudioInner::Capture(c) => c.playback_buf_ms,
            AudioInner::Passthrough(_) => 0,
        }
    }

    /// How many reads came too late; 0 where the sound server passes sound on.
    pub fn xruns(&self) -> (r: u32)
        ensures
            r == match self.inner {
                AudioInner::Capture(c) => c.xruns,
                AudioInner::Passthrough(_) => 0,
            },
    {
        match &self.inner {
            AudioInner::Capture(c) => c.xruns,
            AudioInner::Passthrough(_) => 0,
        }
    }

    /// Sets the sizes of the buffers and tells whether the capture has to start
    /// anew for that.
    pub fn set_buffers(&mut self, capture_ms: i32, playback_ms: i32) -> (r: bool)
        ensures
            final(self).same_source(old(self)),
            final(self).muted == old(self).muted,
            final(self).mode == old(self).mode,
            final(self).capture_buf == capture_ms as u32,
            final(self).playback_buf == playback_ms as u32,
            match old(self).inner {
                AudioInner::Capture(c) => r && final(self).inner == AudioInner::Capture(
                    CaptureState {
                        running: true,
                        capture_buf_ms: capture_ms,
                        playback_buf_ms: playback_ms,
                        ..c
                    },
                ),
                AudioInner::Passthrough(_) => !r && final(self).inner == old(self).inner,
            },
    {
        self.capture_buf = capture_ms as u32;
        self.playback_buf = playback_ms as u32;
        match &mut self.inner {
            AudioInner::Capture(c) => {
                c.capture_buf_ms = capture_ms;
                c.playback_buf_ms = playback_ms;
                c.running = true;
                true
            },
            AudioInner::Passthrough(_) => false,
        }
    }

    /// Stops passing sound on.
    pub fn stop(&mut self)
        ensures
            final(self).same_but_inner(old(self)),
            stopped(old(self).inner, final(self).inner),
    {
        match &mut self.inner {
            AudioInner::Capture(c) => {
                c.running = false;
            },
            AudioInner::Passthrough(p) => {
                let _ = p.unlink();
            },
        }
    }

    /// Whether a virtual microphone can be fed: only where this program reads
    /// the sound.
    pub fn feeds_virtual_mic(&self) -> (r: bool)
        ensures
            r == (self.inner is Capture),
    {
        match &self.inner {
            AudioInner::Capture(_) => true,
            AudioInner::Passthrough(_) => false,
        }
    }
}

/// What stopping makes of the inner state.
pub open spec fn stopped(before: AudioInner, after: AudioInner) -> bool {
    match before {
        AudioInner::Capture(c) => after == AudioInner::Capture(CaptureState { running: false, ..c }),
        AudioInner::Passthrough(p) => after == AudioInner::Passthrough(
            PwLinkState { linked: false, ..p },
        ),
    }
}

/// What muting or the end of it makes of the inner state.
pub open spec fn muted_as(before: AudioInner, after: AudioInner, muted: bool, links: bool) -> bool {
    match before {
        AudioInner::Capture(c) => after == AudioInner::Capture(
            CaptureState { muted_flag: muted, ..c },
        ),
        AudioInner::Passthrough(p) => after == AudioInner::Passthrough(
            PwLinkState { linked: !muted && (p.linked || links), ..p },
        ),
    }
}

/// A mute that is toggled twice leaves captured sound as it was, and linked
/// ports linked.
pub proof fn law_mute_twice(a: AudioInner, b: AudioInner, c: AudioInner, muted: bool)
    requires
        muted_as(a, b, !muted, true),
        muted_as(b, c, muted, true),
        a matches AudioInner::Capture(s) ==> s.muted_flag == muted,
        a matches AudioInner::Passthrough(p) ==> p.linked == !muted,
    ensures
        c == a,
{
}

/// No step takes a volume out of its bounds.
pub proof fn law_volume_stays_in_bounds(v: int, max: int, asked: int)
    requires
        0 <= v <= max,
    ensures
        0 <= lower_of(v + 5, max) <= max,
        0 <= (if v - 5 < 0 {
            0
        } else {
            v - 5
        }) <= max,
        0 <= bounded(asked, max) <= max,
        0 <= asked <= max ==> bounded(asked, max) == asked,
{
}

} // verus!
