//! What is counted and shown of the frames.

use vstd::prelude::*;

use crate::config::Config;
use crate::config::VkPresentMode;
use crate::gl_renderer::ScaleMode;
use crate::menu_build;
use crate::number;
use crate::text;

verus! {

/// Where hashing begins.
pub const HASH_BASIS: u64 = 0xcbf29ce484222325;

/// What each step of hashing multiplies by.
pub const HASH_PRIME: u64 = 0x100000001b3;

/// One step of the hash: a byte is mixed in.
pub open spec fn mixed(h: u64, b: u8) -> u64 {
    ((h ^ (b as u64)) * HASH_PRIME % 0x1_0000_0000_0000_0000) as u64
}

/// The hash of every `stride`-th byte from a place on.
pub open spec fn hash_from(data: Seq<u8>, stride: int, i: int, h: u64) -> u64
    decreases data.len() - i + stride,
{
    if i < 0 || i >= data.len() || stride < 1 {
        h
    } else {
        hash_from(data, stride, i + stride, mixed(h, data[i]))
    }
}

/// From one byte that counts to the next: so that about 128 do.
pub open spec fn hash_stride(len: int) -> int {
    if len / 128 < 1 {
        1
    } else {
        len / 128
    }
}

/// The hash of a frame.
pub open spec fn hash_of(data: Seq<u8>) -> u64 {
    hash_from(data, hash_stride(data.len() as int), 0, HASH_BASIS)
}

/// Hashes a frame, to tell it from the one before.
pub fn frame_hash(data: &[u8]) -> (r: u64)
    ensures
        r == hash_of(data@),
{
    let len: usize = data.len();
    let stride: usize = if len / 128 < 1 {
        1
    } else {
        len / 128
    };
    let mut h: u64 = HASH_BASIS;
    let mut i: usize = 0;
    while i < len
        invariant
            len == data@.len(),
            1 <= stride,
            stride == hash_stride(len as int),
            hash_of(data@) == hash_from(data@, stride as int, i as int, h),
        decreases len + stride - i,
    {
        let b: u8 = data[i];
        h = (h ^ (b as u64)).wrapping_mul(HASH_PRIME);
        if stride >= len - i {
            assert(hash_from(data@, stride as int, i + stride, h) == h);
            return h;
        }
        i += stride;
    }
    h
}

/// The last 64 gaps between captured frames, in microseconds.
pub struct GapRing {
    pub gaps: [u64; 64],
    /// Where the next gap goes.
    pub at: usize,
    /// How many gaps there are, up to 64.
    pub count: usize,
    /// The longest since it was last shown.
    pub longest: u64,
}

/// The sum of the first gaps.
pub open spec fn sum(s: Seq<u64>, n: int) -> int
    decreases n,
{
    if n <= 0 {
        0
    } else {
        sum(s, n - 1) + s[n - 1]
    }
}

/// The distance of two numbers.
pub open spec fn distance(a: int, b: int) -> int {
    if a > b {
        a - b
    } else {
        b - a
    }
}

/// The sum of the squares of the distances from a number.
pub open spec fn squares(s: Seq<u64>, mean: int, n: int) -> int
    decreases n,
{
    if n <= 0 {
        0
    } else {
        squares(s, mean, n - 1) + distance(s[n - 1] as int, mean) * distance(s[n - 1] as int, mean)
    }
}

proof fn lemma_sums(s: Seq<u64>, mean: int, k: int, n: int)
    requires
        0 <= k <= n,
    ensures
        0 <= sum(s, k) <= sum(s, n),
        0 <= squares(s, mean, k) <= squares(s, mean, n),
    decreases n,
{
    if n > 0 {
        let d = distance(s[n - 1] as int, mean);
        assert(0 <= d * d) by (nonlinear_arith);
        if k < n {
            lemma_sums(s, mean, k, n - 1);
        } else {
            lemma_sums(s, mean, k - 1, n - 1);
        }
    }
}

impl GapRing {
    /// What the fields say of each other.
    pub open spec fn wf(&self) -> bool {
        self.at < 64 && self.count <= 64
    }

    /// The gap that was noted `k` gaps ago.
    pub open spec fn recent(&self, k: int) -> u64 {
        self.gaps@[(self.at + 127 - k) % 64]
    }

    pub fn new() -> (r: GapRing)
        ensures
            r.wf(),
            r.gaps@ == Seq::new(64, |i: int| 0u64),
            r.count == 0,
            r.longest == 0,
    {
        let gaps: [u64; 64] = [0; 64];
        assert(gaps@ =~= Seq::new(64, |i: int| 0u64));
        GapRing { gaps, at: 0, count: 0, longest: 0 }
    }

    /// Notes a gap, in place of the oldest where there are 64.
    pub fn note(&mut self, gap: u64)
        requires
            old(self).wf(),
        ensures
            final(self).wf(),
            final(self).recent(0) == gap,
            forall|k: int|
                0 <= k < 63 ==> final(self).recent(k + 1) == #[trigger] old(self).recent(k),
            final(self).count == (if old(self).count < 64 {
                old(self).count + 1
            } else {
                64
            }),
            final(self).longest == (if gap > old(self).longest {
                gap
            } else {
                old(self).longest
            }),
    {
        self.gaps[self.at] = gap;
        self.at = (self.at + 1) % 64;
        if self.count < 64 {
            self.count = self.count + 1;
        }
        if gap > self.longest {
            self.longest = gap;
        }
    }

    /// The last gap; 0 where there is none.
    pub fn last(&self) -> (r: u64)
        requires
            self.wf(),
        ensures
            r == (if self.count > 0 {
                self.recent(0)
            } else {
                0
            }),
    {
        if self.count > 0 {
            self.gaps[(self.at + 63) % 64]
        } else {
            0
        }
    }

    /// The mean gap.
    pub open spec fn mean(&self) -> int {
        sum(self.gaps@, self.count as int) / self.count as int
    }

    /// The mean square of the distance from the mean gap; its root is the
    /// jitter. `None` with fewer than two gaps.
    pub fn variance(&self) -> (r: Option<u64>)
        requires
            self.wf(),
            sum(self.gaps@, self.count as int) <= u64::MAX,
            squares(self.gaps@, self.mean(), self.count as int) <= u64::MAX,
        ensures
            r is Some <==> self.count >= 2,
            r matches Some(v) ==> v == squares(self.gaps@, self.mean(), self.count as int)
                / self.count as int,
    {
        let n: usize = self.count;
        if n < 2 {
            return None;
        }
        let mut total: u64 = 0;
        let mut i: usize = 0;
        while i < n
            invariant
                i <= n <= 64,
                total == sum(self.gaps@, i as int),
                sum(self.gaps@, n as int) <= u64::MAX,
            decreases n - i,
        {
            proof {
                lemma_sums(self.gaps@, 0, i + 1, n as int);
            }
            total = total + self.gaps[i];
            i += 1;
        }
        let mean: u64 = total / n as u64;
        let ghost m = self.mean();
        let mut square: u64 = 0;
        let mut i: usize = 0;
        while i < n
            invariant
                i <= n <= 64,
                mean == m,
                square == squares(self.gaps@, m, i as int),
                squares(self.gaps@, m, n as int) <= u64::MAX,
            decreases n - i,
        {
            let g: u64 = self.gaps[i];
            let d: u64 = if g > mean {
                g - mean
            } else {
                mean - g
            };
            proof {
                lemma_sums(self.gaps@, m, i + 1, n as int);
                lemma_sums(self.gaps@, m, i as int, n as int);
                assert(d == distance(self.gaps@[i as int] as int, m));
                assert(0 <= d * d) by (nonlinear_arith);
            }
            square = square + d * d;
            i += 1;
        }
        Some(square / n as u64)
    }

    /// Begins anew with the longest gap.
    pub fn shown(&mut self)
        ensures
            *final(self) == (GapRing { longest: 0, ..*old(self) }),
    {
        self.longest = 0;
    }
}

/// How much of the frame rate is shown.
#[derive(Clone, Copy, Debug, PartialEq, Eq, Structural)]
pub enum FpsShow {
    Off,
    Simple,
    Verbose,
}

/// What a setting stands for.
pub open spec fn show_named(s: Seq<char>) -> FpsShow {
    if s == "simple"@ {
        FpsShow::Simple
    } else if s == "verbose"@ {
        FpsShow::Verbose
    } else {
        FpsShow::Off
    }
}

impl FpsShow {
    /// Its name in the configuration file.
    pub open spec fn named(self) -> Seq<char> {
        match self {
            FpsShow::Off => "off"@,
            FpsShow::Simple => "simple"@,
            FpsShow::Verbose => "verbose"@,
        }
    }

    /// Reads a setting.
    pub fn from_config(s: &str) -> (r: FpsShow)
        ensures
            r == show_named(s@),
    {
        if text::same(s, "simple") {
            FpsShow::Simple
        } else if text::same(s, "verbose") {
            FpsShow::Verbose
        } else {
            FpsShow::Off
        }
    }

    /// Names it as the configuration file does.
    pub fn config_name(self) -> (r: &'static str)
        ensures
            r@ == self.named(),
    {
        match self {
            FpsShow::Off => "off",
            FpsShow::Simple => "simple",
            FpsShow::Verbose => "verbose",
        }
    }

    /// The choice at a place in the menu.
    pub fn from_menu(i: usize) -> (r: FpsShow)
        ensures
            r == (if i == 1 {
                FpsShow::Simple
            } else if i == 2 {
                FpsShow::Verbose
            } else {
                FpsShow::Off
            }),
    {
        match i {
            1 => FpsShow::Simple,
            2 => FpsShow::Verbose,
            _ => FpsShow::Off,
        }
    }

    /// What the key makes of it: off where it is shown, else what the setting
    /// says, at least the simple one.
    pub fn toggled(self, configured: &str) -> (r: FpsShow)
        ensures
            r == (if self != FpsShow::Off {
                FpsShow::Off
            } else if show_named(configured@) == FpsShow::Verbose {
                FpsShow::Verbose
            } else {
                FpsShow::Simple
            }),
    {
        if self != FpsShow::Off {
            FpsShow::Off
        } else if FpsShow::from_config(configured) == FpsShow::Verbose {
            FpsShow::Verbose
        } else {
            FpsShow::Simple
        }
    }

    /// What is shown before anything was counted; `None` where nothing is.
    pub fn placeholder(self) -> (r: Option<&'static str>)
        ensures
            match r {
                Some(s) => self != FpsShow::Off && s@ == (if self == FpsShow::Verbose {
                    "Device:  --\nCapture: --\nRender:  --"@
                } else {
                    "-- / -- / -- fps"@
                }),
                None => self == FpsShow::Off,
            },
    {
        match self {
            FpsShow::Off => None,
            FpsShow::Simple => Some("-- / -- / -- fps"),
            FpsShow::Verbose => Some("Device:  --\nCapture: --\nRender:  --"),
        }
    }
}

/// The names of the choices read back.
pub proof fn law_show_names_read_back(s: FpsShow)
    ensures
        show_named(s.named()) == s,
{
    reveal_strlit("off");
    reveal_strlit("simple");
    reveal_strlit("verbose");
    assert("off"@.len() == 3 && "simple"@.len() == 6 && "verbose"@.len() == 7);
}

/// What is counted from one showing to the next.
#[derive(Clone, Copy, Debug, PartialEq, Eq, Structural)]
pub struct Counters {
    /// Frames shown.
    pub shown: u32,
    /// Frames captured.
    pub captured: u32,
    /// Frames that the device numbered.
    pub numbered: u32,
    /// The number of the last frame.
    pub last_number: Option<u32>,
    /// Captured frames that differ from the one before.
    pub unique: u32,
    /// The hash of the last frame.
    pub last_hash: u64,
    pub upload_sum: u64,
    pub upload_count: u32,
    pub present_sum: u64,
    pub present_count: u32,
    pub stutters: u32,
    /// All captured frames that were like the one before.
    pub dupes: u64,
}

/// The counters at the start of a showing, with what is kept from before.
pub open spec fn emptied(c: Counters) -> Counters {
    Counters {
        shown: 0,
        captured: 0,
        numbered: 0,
        last_number: None,
        unique: 0,
        upload_sum: 0,
        upload_count: 0,
        present_sum: 0,
        present_count: 0,
        ..c
    }
}

/// The distance from one frame number to a later one, which may have begun anew.
pub open spec fn steps_between(from: u32, to: u32) -> int {
    if to >= from {
        to - from
    } else {
        to - from + 0x1_0000_0000
    }
}

/// Captured frames that were like the one before.
pub open spec fn repeated(c: Counters) -> int {
    if c.captured > c.unique {
        c.captured - c.unique
    } else {
        0
    }
}

impl Counters {
    pub fn new() -> (r: Counters)
        ensures
            r == emptied(r),
            r.last_hash == 0,
            r.stutters == 0,
            r.dupes == 0,
    {
        Counters {
            shown: 0,
            captured: 0,
            numbered: 0,
            last_number: None,
            unique: 0,
            last_hash: 0,
            upload_sum: 0,
            upload_count: 0,
            present_sum: 0,
            present_count: 0,
            stutters: 0,
            dupes: 0,
        }
    }

    fn empty(&mut self)
        ensures
            *final(self) == emptied(*old(self)),
    {
        self.shown = 0;
        self.captured = 0;
        self.numbered = 0;
        self.last_number = None;
        self.unique = 0;
        self.upload_sum = 0;
        self.upload_count = 0;
        self.present_sum = 0;
        self.present_count = 0;
    }

    /// Begins anew because the showing was switched on.
    pub fn switched_on(&mut self)
        ensures
            *final(self) == (Counters { stutters: 0, ..emptied(*old(self)) }),
    {
        self.empty();
        self.stutters = 0;
    }

    /// Counts a captured frame with the number that the device gave it.
    pub fn capture(&mut self, number: u32)
        requires
            old(self).captured < u32::MAX,
            old(self).last_number matches Some(p) ==> old(self).numbered + steps_between(p, number)
                <= u32::MAX,
        ensures
            *final(self) == (Counters {
                captured: (old(self).captured + 1) as u32,
                numbered: match old(self).last_number {
                    Some(p) => (old(self).numbered + steps_between(p, number)) as u32,
                    None => old(self).numbered,
                },
                last_number: Some(number),
                ..*old(self)
            }),
    {
        self.captured = self.captured + 1;
        if let Some(p) = self.last_number {
            let steps: u32 = number.wrapping_sub(p);
            self.numbered = self.numbered + steps;
        }
        self.last_number = Some(number);
    }

    /// Compares a captured frame with the one before.
    pub fn compare(&mut self, data: &[u8])
        requires
            old(self).unique < u32::MAX,
        ensures
            *final(self) == (if hash_of(data@) == old(self).last_hash {
                *old(self)
            } else {
                Counters {
                    unique: (old(self).unique + 1) as u32,
                    last_hash: hash_of(data@),
                    ..*old(self)
                }
            }),
    {
        let h: u64 = frame_hash(data);
        if h != self.last_hash {
            self.unique = self.unique + 1;
            self.last_hash = h;
        }
    }

    /// Counts an upload that took so long.
    pub fn upload(&mut self, us: u64)
        requires
            old(self).upload_sum + us <= u64::MAX,
            old(self).upload_count < u32::MAX,
        ensures
            *final(self) == (Counters {
                upload_sum: (old(self).upload_sum + us) as u64,
                upload_count: (old(self).upload_count + 1) as u32,
                ..*old(self)
            }),
    {
        self.upload_sum = self.upload_sum + us;
        self.upload_count = self.upload_count + 1;
    }

    /// Counts a frame that was shown, which took so long, and whether it came
    /// late.
    pub fn present(&mut self, verbose: bool, us: u64, late: bool)
        requires
            old(self).present_sum + us <= u64::MAX,
            old(self).present_count < u32::MAX,
            old(self).shown < u32::MAX,
            old(self).stutters < u32::MAX,
        ensures
            final(self).shown == old(self).shown + 1,
            verbose ==> *final(self) == (Counters {
                shown: (old(self).shown + 1) as u32,
                present_sum: (old(self).present_sum + us) as u64,
                present_count: (old(self).present_count + 1) as u32,
                stutters: if late {
                    (old(self).stutters + 1) as u32
                } else {
                    old(self).stutters
                },
                ..*old(self)
            }),
            !verbose ==> *final(self) == (Counters {
                shown: (old(self).shown + 1) as u32,
                ..*old(self)
            }),
    {
        self.shown = self.shown + 1;
        if verbose {
            self.present_sum = self.present_sum + us;
            self.present_count = self.present_count + 1;
            if late {
                self.stutters = self.stutters + 1;
            }
        }
    }

    /// How many of the captured frames were like the one before, lately and in
    /// all.
    pub fn duplicates(&self) -> (r: (u32, u64))
        requires
            self.dupes + repeated(*self) <= u64::MAX,
        ensures
            r.0 == repeated(*self),
            r.1 == self.dupes + repeated(*self),
    {
        let d: u32 = if self.captured > self.unique {
            self.captured - self.unique
        } else {
            0
        };
        (d, self.dupes + d as u64)
    }

    /// Begins anew because what was counted was shown.
    pub fn reported(&mut self)
        requires
            old(self).dupes + repeated(*old(self)) <= u64::MAX,
        ensures
            *final(self) == (Counters {
                dupes: (old(self).dupes + repeated(*old(self))) as u64,
                ..emptied(*old(self))
            }),
    {
        let all: u64 = self.duplicates().1;
        self.empty();
        self.dupes = all;
    }
}

/// What draws, as the frame rate display names it.
pub open spec fn tag_text(
    vulkan: bool,
    opengl: bool,
    present: Option<VkPresentMode>,
    zero_copy: bool,
) -> Seq<char> {
    if vulkan {
        match present {
            Some(VkPresentMode::Mailbox) => "VK+MB"@,
            Some(VkPresentMode::Immediate) => "VK+IMM"@,
            Some(VkPresentMode::Fifo) => "VK+FIFO"@,
            None => "VK"@,
        }
    } else if opengl {
        if zero_copy {
            "GL+DMA"@
        } else {
            "GL"@
        }
    } else {
        "SDL"@
    }
}

/// Names what draws.
pub fn renderer_tag(
    vulkan: bool,
    opengl: bool,
    present: Option<VkPresentMode>,
    zero_copy: bool,
) -> (r: &'static str)
    ensures
        r@ == tag_text(vulkan, opengl, present, zero_copy),
{
    if vulkan {
        match present {
            Some(VkPresentMode::Mailbox) => "VK+MB",
            Some(VkPresentMode::Immediate) => "VK+IMM",
            Some(VkPresentMode::Fifo) => "VK+FIFO",
            None => "VK",
        }
    } else if opengl {
        if zero_copy {
            "GL+DMA"
        } else {
            "GL"
        }
    } else {
        "SDL"
    }
}

/// Names the scaling behind what draws; nothing but with Vulkan.
pub fn scale_tag(vulkan: bool, m: ScaleMode) -> (r: &'static str)
    ensures
        r@ == (if vulkan && m == ScaleMode::Cas {
            " CAS"@
        } else if vulkan && (m == ScaleMode::Fsr || m == ScaleMode::IntegerFsr) {
            " FSR"@
        } else {
            ""@
        }),
{
    if !vulkan {
        return "";
    }
    match m {
        ScaleMode::Cas => " CAS",
        ScaleMode::Fsr => " FSR",
        ScaleMode::IntegerFsr => " FSR",
        _ => "",
    }
}

/// Where the next white space is from a place on.
pub open spec fn space_from(s: Seq<char>, from: int) -> int
    decreases s.len() - from,
{
    if 0 <= from < s.len() && !text::is_space(s[from]) {
        space_from(s, from + 1)
    } else {
        from
    }
}

/// The words of a text from a place on: what stands between white space.
pub open spec fn words_from(s: Seq<char>, from: int) -> Seq<Seq<char>>
    decreases s.len() - from,
    via words_from_shrinks
{
    if from < 0 || from >= s.len() {
        Seq::empty()
    } else if text::is_space(s[from]) {
        words_from(s, from + 1)
    } else {
        seq![s.subrange(from, space_from(s, from))] + words_from(s, space_from(s, from))
    }
}

proof fn lemma_space_from(s: Seq<char>, from: int)
    requires
        0 <= from <= s.len(),
    ensures
        from <= space_from(s, from) <= s.len(),
        from < s.len() && !text::is_space(s[from]) ==> from < space_from(s, from),
    decreases s.len() - from,
{
    if from < s.len() && !text::is_space(s[from]) {
        lemma_space_from(s, from + 1);
    }
}

#[via_fn]
proof fn words_from_shrinks(s: Seq<char>, from: int) {
    if 0 <= from < s.len() {
        lemma_space_from(s, from);
    }
}

fn split_words(s: &[char]) -> (r: Vec<Vec<char>>)
    ensures
        text::texts(r@) == words_from(s@, 0),
{
    let mut out: Vec<Vec<char>> = Vec::new();
    let mut i: usize = 0;
    assert(text::texts(out@) + words_from(s@, 0) =~= words_from(s@, 0));
    while i < s.len()
        invariant
            i <= s@.len(),
            text::texts(out@) + words_from(s@, i as int) == words_from(s@, 0),
        decreases s@.len() - i,
    {
        if text::space(s[i]) {
            i += 1;
        } else {
            let start: usize = i;
            while i < s.len() && !text::space(s[i])
                invariant
                    start <= i <= s@.len(),
                    space_from(s@, start as int) == space_from(s@, i as int),
                decreases s@.len() - i,
            {
                i += 1;
            }
            proof {
                lemma_space_from(s@, start as int);
            }
            let word = &s[start..i];
            let ghost before = out@;
            out.push(vstd::slice::slice_to_vec(word));
            proof {
                assert(text::texts(out@) =~= text::texts(before).push(word@));
                assert(word@ =~= s@.subrange(start as int, i as int));
                assert(text::texts(out@) + words_from(s@, i as int) =~= text::texts(before)
                    + words_from(s@, start as int));
            }
        }
    }
    assert(text::texts(out@) =~= words_from(s@, 0));
    out
}

/// A number, or 0 where a text is none.
pub open spec fn number_or_zero(s: Seq<char>) -> nat {
    match number::number_up_to(s, u64::MAX as nat) {
        Some(n) => n,
        None => 0,
    }
}

fn read_or_zero(s: &[char]) -> (r: u64)
    ensures
        r == number_or_zero(s@),
{
    match number::parse_up_to(s, u64::MAX) {
        Some(n) => n,
        None => 0,
    }
}

/// How long a process has run, in ticks, as the system describes it: its own time
/// and that of the system for it, the fourteenth word and the one after. `None`
/// where the description is too short.
pub fn cpu_ticks(stat: &str) -> (r: Option<u128>)
    ensures
        ({
            let w = words_from(stat@, 0);
            r == (if w.len() > 14 {
                Some((number_or_zero(w[13]) + number_or_zero(w[14])) as u128)
            } else {
                None
            })
        }),
{
    let c = text::chars_of(stat);
    let w = split_words(c.as_slice());
    assert(text::texts(w@).len() == w@.len());
    if w.len() > 14 {
        assert(text::texts(w@)[13] == w@[13]@ && text::texts(w@)[14] == w@[14]@);
        let user: u64 = read_or_zero(w[13].as_slice());
        let system: u64 = read_or_zero(w[14].as_slice());
        Some(user as u128 + system as u128)
    } else {
        None
    }
}

/// The title of the window: the program's name, with what streams behind it.
pub open spec fn title_text(
    server: Option<(u16, u32)>,
    client: Option<(Seq<u8>, u16)>,
) -> Seq<char> {
    let a = match server {
        Some((port, count)) => "streaming on :"@ + number::decimal(port as nat) + ", "@
            + number::decimal(count as nat) + " client"@ + (if count == 1 {
            ""@
        } else {
            "s"@
        }),
        None => Seq::empty(),
    };
    let b = match client {
        Some((ip, port)) => "connected to "@ + menu_build::dotted(ip) + ":"@ + number::decimal(
            port as nat,
        ),
        None => Seq::empty(),
    };
    if server is Some && client is Some {
        "capview <"@ + (a + " | "@ + b) + ">"@
    } else if server is Some {
        "capview <"@ + a + ">"@
    } else if client is Some {
        "capview <"@ + b + ">"@
    } else {
        "capview"@
    }
}

fn server_part(port: u16, count: u32) -> (r: Vec<char>)
    ensures
        r@ == "streaming on :"@ + number::decimal(port as nat) + ", "@ + number::decimal(
            count as nat,
        ) + " client"@ + (if count == 1 {
            ""@
        } else {
            "s"@
        }),
{
    let mut out = text::chars_of("streaming on :");
    text::extend(&mut out, number::to_decimal(port as u64).as_slice());
    text::extend(&mut out, text::chars_of(", ").as_slice());
    text::extend(&mut out, number::to_decimal(count as u64).as_slice());
    text::extend(&mut out, text::chars_of(" client").as_slice());
    let plural = if count == 1 {
        text::chars_of("")
    } else {
        text::chars_of("s")
    };
    text::extend(&mut out, plural.as_slice());
    out
}

fn client_part(ip: &[u8; 4], port: u16) -> (r: Vec<char>)
    ensures
        r@ == "connected to "@ + menu_build::dotted(ip@) + ":"@ + number::decimal(port as nat),
{
    let mut out = text::chars_of("connected to ");
    text::extend(&mut out, menu_build::to_dotted(ip).as_slice());
    text::extend(&mut out, text::chars_of(":").as_slice());
    text::extend(&mut out, number::to_decimal(port as u64).as_slice());
    out
}

/// Writes the title of the window.
pub fn window_title(server: Option<(u16, u32)>, client: bool, cfg: &Config) -> (r: String)
    ensures
        r@ == title_text(
            server,
            if client {
                Some((cfg.stream_client_ip@, cfg.stream_client_port))
            } else {
                None
            },
        ),
{
    let inner = match server {
        Some((port, count)) => {
            let mut a = server_part(port, count);
            if client {
                text::extend(&mut a, text::chars_of(" | ").as_slice());
                text::extend(
                    &mut a,
                    client_part(&cfg.stream_client_ip, cfg.stream_client_port).as_slice(),
                );
            }
            a
        },
        None => if client {
            client_part(&cfg.stream_client_ip, cfg.stream_client_port)
        } else {
            return "capview".to_owned();
        },
    };
    let mut out = text::chars_of("capview <");
    text::extend(&mut out, inner.as_slice());
    text::extend(&mut out, text::chars_of(">").as_slice());
    text::string_of(out.as_slice())
}

} // verus!
