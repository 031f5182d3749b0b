//! Capture devices: pixel formats, what a driver is asked and what its answers
//! mean, which device and which of its formats is taken, and frames without the
//! padding of their rows.

use vstd::prelude::*;

use crate::number;
use crate::text;

verus! {

/// Planar luma with interleaved chroma at half resolution.
pub const V4L2_PIX_FMT_NV12: u32 = 0x3231564e;

/// Packed 4:2:2, luma first.
pub const V4L2_PIX_FMT_YUYV: u32 = 0x56595559;

/// Packed 4:2:2, chroma first.
pub const V4L2_PIX_FMT_UYVY: u32 = 0x59565955;

/// Packed BGRX.
pub const V4L2_PIX_FMT_XRGB32: u32 = 0x34324258;

/// Ten-bit variant of NV12.
pub const V4L2_PIX_FMT_P010: u32 = 0x30313050;

/// Motion JPEG.
pub const V4L2_PIX_FMT_MJPEG: u32 = 0x47504a4d;

/// Packed RGB, what motion JPEG is decoded into.
pub const PIXFMT_RGB24: u32 = 0x33424752;

/// The device captures video.
pub const V4L2_CAP_VIDEO_CAPTURE: u32 = 0x1;

/// The device streams.
pub const V4L2_CAP_STREAMING: u32 = 0x4000000;

/// NV12 as AVFoundation names it.
pub const K_CV_NV12: u32 = 0x34323076;

/// UYVY as AVFoundation names it.
pub const K_CV_UYVY: u32 = 0x32797576;

/// Why a device cannot be used.
#[derive(Clone, Copy, Debug, PartialEq, Eq, Structural)]
pub enum CapsError {
    NotCapture,
    NoStreaming,
}

/// Whether a device that answered with these capabilities can be used.
pub fn check_caps(device_caps: u32) -> (r: Result<(), CapsError>)
    ensures
        match r {
            Ok(_) => device_caps & V4L2_CAP_VIDEO_CAPTURE != 0 && device_caps & V4L2_CAP_STREAMING
                != 0,
            Err(CapsError::NotCapture) => device_caps & V4L2_CAP_VIDEO_CAPTURE == 0,
            Err(CapsError::NoStreaming) => device_caps & V4L2_CAP_VIDEO_CAPTURE != 0 && device_caps
                & V4L2_CAP_STREAMING == 0,
        },
{
    if device_caps & V4L2_CAP_VIDEO_CAPTURE == 0 {
        return Err(CapsError::NotCapture);
    }
    if device_caps & V4L2_CAP_STREAMING == 0 {
        return Err(CapsError::NoStreaming);
    }
    Ok(())
}

/// Whether a request to the driver is to be made again: it failed, and only
/// because a signal came in between.
pub fn retry_request(result: i32, interrupted: bool) -> (r: bool)
    ensures
        r == (result == -1 && interrupted),
{
    result == -1 && interrupted
}

/// Size, rate and format of a capture.
#[derive(Clone, Copy, Debug, PartialEq, Eq, Structural)]
pub struct CaptureFormat {
    pub width: u32,
    pub height: u32,
    pub fps: u32,
    pub pixfmt: u32,
}

/// The time between frames that a driver chose, as a fraction of a second.
#[derive(Clone, Copy, Debug, PartialEq, Eq, Structural)]
pub struct FrameInterval {
    pub numerator: u32,
    pub denominator: u32,
}

/// The frame rate of an interval, rounded down.
pub open spec fn rate_of(i: FrameInterval) -> int {
    i.denominator as int / (if i.numerator == 0 {
        1
    } else {
        i.numerator as int
    })
}

/// What is captured after a driver was asked: its own size and format, and its
/// own rate where it told one, else the one that was wanted.
pub fn set_format(
    wanted: CaptureFormat,
    width: u32,
    height: u32,
    pixfmt: u32,
    interval: Option<FrameInterval>,
) -> (r: CaptureFormat)
    ensures
        r.width == width,
        r.height == height,
        r.pixfmt == pixfmt,
        r.fps == (match interval {
            Some(i) => rate_of(i),
            None => wanted.fps as int,
        }),
{
    let fps: u32 = match interval {
        Some(i) => i.denominator / (if i.numerator == 0 {
            1
        } else {
            i.numerator
        }),
        None => wanted.fps,
    };
    CaptureFormat { width, height, fps, pixfmt }
}

/// What came of asking for a frame.
#[derive(Clone, Copy, Debug, PartialEq, Eq, Structural)]
pub enum Dequeued {
    Frame,
    /// None is ready yet.
    NotReady,
    Failed,
}

/// What came of asking for a frame, from the driver's answer.
pub fn dequeue(result: i32, would_block: bool) -> (r: Dequeued)
    ensures
        r == (if result >= 0 {
            Dequeued::Frame
        } else if would_block {
            Dequeued::NotReady
        } else {
            Dequeued::Failed
        }),
{
    if result >= 0 {
        Dequeued::Frame
    } else if would_block {
        Dequeued::NotReady
    } else {
        Dequeued::Failed
    }
}

/// The driver's time stamp of a frame in microseconds.
pub fn timestamp_us(sec: u64, usec: u64) -> (r: u64)
    requires
        sec * 1_000_000 + usec <= u64::MAX,
    ensures
        r == sec * 1_000_000 + usec,
{
    sec * 1_000_000 + usec
}

/// The four bytes of a number, the least significant first.
pub open spec fn le_bytes(v: u32) -> Seq<u8> {
    seq![
        (v % 0x100) as u8,
        (v / 0x100 % 0x100) as u8,
        (v / 0x10000 % 0x100) as u8,
        (v / 0x1000000) as u8,
    ]
}

/// The four characters of a format code.
pub fn format_name(pixfmt: u32) -> (r: String)
    ensures
        r@ == text::lossy_utf8(le_bytes(pixfmt)),
        vstd::utf8::valid_utf8(le_bytes(pixfmt)) ==> r@ == vstd::utf8::decode_utf8(
            le_bytes(pixfmt),
        ),
{
    let b: [u8; 4] = [
        (pixfmt % 0x100) as u8,
        (pixfmt / 0x100 % 0x100) as u8,
        (pixfmt / 0x10000 % 0x100) as u8,
        (pixfmt / 0x1000000) as u8,
    ];
    assert(b@ =~= le_bytes(pixfmt));
    text::from_bytes(b.as_slice())
}

/// The bytes before the first zero; none where there is no zero.
pub open spec fn before_zero(b: Seq<u8>) -> Option<Seq<u8>>
    decreases b.len(),
{
    if b.len() == 0 {
        None
    } else if b[0] == 0 {
        Some(Seq::empty())
    } else {
        match before_zero(b.drop_first()) {
            Some(t) => Some(seq![b[0]] + t),
            None => None,
        }
    }
}

/// A name that the driver gave, which ends at its first zero.
pub fn driver_text(b: &[u8]) -> (r: String)
    ensures
        r@ == (match before_zero(b@) {
            Some(t) => text::lossy_utf8(t),
            None => "unknown"@,
        }),
{
    let mut i: usize = 0;
    assert(b@.skip(0) =~= b@);
    assert(b@.take(0) =~= Seq::<u8>::empty());
    assert(before_zero(b@) == (match before_zero(b@.skip(0)) {
        Some(t) => Some(b@.take(0) + t),
        None => None,
    })) by {
        if let Some(t) = before_zero(b@) {
            assert(b@.take(0) + t =~= t);
        }
    }
    while i < b.len()
        invariant
            i <= b@.len(),
            before_zero(b@) == (match before_zero(b@.skip(i as int)) {
                Some(t) => Some(b@.take(i as int) + t),
                None => None,
            }),
        decreases b@.len() - i,
    {
        if b[i] == 0 {
            let name = &b[0..i];
            assert(name@ =~= b@.take(i as int) + Seq::<u8>::empty());
            return text::from_bytes(name);
        }
        proof {
            assert(b@.skip(i as int).drop_first() =~= b@.skip(i + 1));
            if let Some(t) = before_zero(b@.skip(i + 1)) {
                assert(b@.take(i as int) + (seq![b@[i as int]] + t) =~= b@.take(i + 1) + t);
            }
        }
        i += 1;
    }
    "unknown".to_owned()
}

/// The name of a format on macOS: its own, or its number in hexadecimal.
pub fn mac_format_name(pixfmt: u32) -> (r: String)
    ensures
        r@ == (if pixfmt == V4L2_PIX_FMT_NV12 {
            "NV12"@
        } else if pixfmt == V4L2_PIX_FMT_YUYV {
            "YUYV"@
        } else if pixfmt == V4L2_PIX_FMT_UYVY {
            "UYVY"@
        } else {
            "0x"@ + number::padded_left(number::hex(pixfmt as nat), 8, '0')
        }),
{
    if pixfmt == V4L2_PIX_FMT_NV12 {
        "NV12".to_owned()
    } else if pixfmt == V4L2_PIX_FMT_YUYV {
        "YUYV".to_owned()
    } else if pixfmt == V4L2_PIX_FMT_UYVY {
        "UYVY".to_owned()
    } else {
        let mut out = text::chars_of("0x");
        let digits = number::to_hex(pixfmt);
        text::extend(&mut out, number::pad_left(digits.as_slice(), 8, '0').as_slice());
        text::string_of(out.as_slice())
    }
}

/// What AVFoundation is asked for: UYVY, or NV12 for any other format.
pub open spec fn avf_of(pixfmt: u32) -> u32 {
    if pixfmt == V4L2_PIX_FMT_UYVY {
        K_CV_UYVY
    } else {
        K_CV_NV12
    }
}

/// What AVFoundation is asked for.
pub fn avf_format(pixfmt: u32) -> (r: u32)
    ensures
        r == avf_of(pixfmt),
{
    if pixfmt == V4L2_PIX_FMT_UYVY {
        K_CV_UYVY
    } else {
        K_CV_NV12
    }
}

/// The format that comes when AVFoundation is asked for one.
pub fn format_from_avf(avf: u32) -> (r: u32)
    ensures
        r == (if avf == K_CV_UYVY {
            V4L2_PIX_FMT_UYVY
        } else {
            V4L2_PIX_FMT_NV12
        }),
{
    if avf == K_CV_UYVY {
        V4L2_PIX_FMT_UYVY
    } else {
        V4L2_PIX_FMT_NV12
    }
}

/// What to do on an answer about camera access.
#[derive(Clone, Copy, Debug, PartialEq, Eq, Structural)]
pub enum Access {
    Go,
    Ask,
    Denied,
}

/// What an answer about camera access means: 0 is undecided, 1 and 2 are
/// refusals.
pub fn camera_access(status: i64) -> (r: Access)
    ensures
        r == (if status == 0 {
            Access::Ask
        } else if status == 1 || status == 2 {
            Access::Denied
        } else {
            Access::Go
        }),
{
    if status == 0 {
        Access::Ask
    } else if status == 1 || status == 2 {
        Access::Denied
    } else {
        Access::Go
    }
}

/// How often an answer about camera access is waited for.
pub const ACCESS_TRIES: u32 = 300;

/// What to do while an answer about camera access is waited for.
#[derive(Clone, Copy, Debug, PartialEq, Eq, Structural)]
pub enum AccessWait {
    /// Ask again a tenth of a second later.
    Wait,
    Go,
    Denied,
}

/// What an answer means once access was asked for, where `tries` answers have come,
/// this one among them: a decided one counts; an undecided one is waited for, but
/// not for ever.
pub open spec fn access_step(status: i64, tries: int) -> AccessWait {
    if status == 1 || status == 2 {
        AccessWait::Denied
    } else if status == 0 && tries < ACCESS_TRIES {
        AccessWait::Wait
    } else {
        AccessWait::Go
    }
}

/// What to do on an answer once access was asked for.
pub fn await_access(status: i64, tries: u32) -> (r: AccessWait)
    ensures
        r == access_step(status, tries as int),
{
    if status == 1 || status == 2 {
        AccessWait::Denied
    } else if status == 0 && tries < ACCESS_TRIES {
        AccessWait::Wait
    } else {
        AccessWait::Go
    }
}

/// What waiting for answers comes to from one on; `Wait` where they run out.
pub open spec fn awaited(answers: Seq<i64>, from: int) -> AccessWait
    decreases answers.len() - from,
{
    if from < 0 || from >= answers.len() {
        AccessWait::Wait
    } else if access_step(answers[from], from + 1) == AccessWait::Wait {
        awaited(answers, from + 1)
    } else {
        access_step(answers[from], from + 1)
    }
}

proof fn lemma_awaited(answers: Seq<i64>, from: int, n: int)
    requires
        0 <= from <= n < answers.len(),
        n < ACCESS_TRIES,
        forall|i: int| from <= i < n ==> answers[i] == 0,
        answers[n] != 0 || n == ACCESS_TRIES - 1,
    ensures
        awaited(answers, from) == access_step(answers[n], n + 1),
    decreases n - from,
{
    if from < n {
        lemma_awaited(answers, from + 1, n);
    }
}

/// The first decided answer of the first three hundred decides, and where all of
/// them are undecided capturing goes on.
pub proof fn law_first_decided_answer_counts(answers: Seq<i64>, n: int)
    requires
        0 <= n < ACCESS_TRIES,
        answers.len() >= ACCESS_TRIES,
        forall|i: int| 0 <= i < n ==> answers[i] == 0,
    ensures
        answers[n] != 0 ==> awaited(answers, 0) == (if answers[n] == 1 || answers[n] == 2 {
            AccessWait::Denied
        } else {
            AccessWait::Go
        }),
        n == ACCESS_TRIES - 1 && answers[n] == 0 ==> awaited(answers, 0) == AccessWait::Go,
{
    if answers[n] != 0 || n == ACCESS_TRIES - 1 {
        lemma_awaited(answers, 0, n);
    }
}

/// A format that a device offers.
#[derive(Clone, Copy, Debug, PartialEq, Eq, Structural)]
pub struct DeviceFormat {
    pub width: u32,
    pub height: u32,
    pub subtype: u32,
    /// Highest frame rate, rounded down.
    pub max_fps: i64,
    /// Whether the highest frame rate reaches the wanted one, give or take half
    /// a frame.
    pub fast_enough: bool,
}

/// How well a format suits: its size above all, then its kind, then its rate.
pub open spec fn score(f: DeviceFormat, w: u32, h: u32, subtype: u32) -> int {
    let size = if f.width == w && f.height == h {
        10_000_000
    } else if f.width * f.height > w * h {
        w * h - f.width * f.height
    } else {
        f.width * f.height - w * h
    };
    size + (if f.subtype == subtype {
        1_000_000int
    } else {
        0
    }) + (if f.fast_enough {
        500_000int
    } else {
        0
    }) + f.max_fps
}

fn score_of(f: &DeviceFormat, w: u32, h: u32, subtype: u32) -> (r: i128)
    ensures
        r == score(*f, w, h, subtype),
        -0x4_0000_0000_0000_0000 < r < 0x4_0000_0000_0000_0000,
{
    assert(0 <= f.width * f.height <= u32::MAX * u32::MAX) by (nonlinear_arith)
        requires
            0 <= f.width <= u32::MAX,
            0 <= f.height <= u32::MAX,
    ;
    assert(0 <= w * h <= u32::MAX * u32::MAX) by (nonlinear_arith)
        requires
            0 <= w <= u32::MAX,
            0 <= h <= u32::MAX,
    ;
    let have: i128 = f.width as i128 * f.height as i128;
    let want: i128 = w as i128 * h as i128;
    let mut s: i128 = if f.width == w && f.height == h {
        10_000_000
    } else if have > want {
        want - have
    } else {
        have - want
    };
    if f.subtype == subtype {
        s = s + 1_000_000;
    }
    if f.fast_enough {
        s = s + 500_000;
    }
    s + f.max_fps as i128
}

/// Whether a format is the first of the best.
pub open spec fn is_best(fs: Seq<DeviceFormat>, w: u32, h: u32, subtype: u32, i: int) -> bool {
    &&& 0 <= i < fs.len()
    &&& forall|j: int|
        0 <= j < i ==> score(#[trigger] fs[j], w, h, subtype) < score(fs[i], w, h, subtype)
    &&& forall|j: int|
        i < j < fs.len() ==> score(#[trigger] fs[j], w, h, subtype) <= score(
            fs[i],
            w,
            h,
            subtype,
        )
}

/// Chooses the format to set: the first of the best. None is set where the
/// device offers none, or the best has no width.
pub fn select_device_format(fs: &[DeviceFormat], w: u32, h: u32, pixfmt: u32) -> (r: Option<usize>)
    ensures
        match r {
            Some(i) => is_best(fs@, w, h, avf_of(pixfmt), i as int) && fs@[i as int].width > 0,
            None => fs@.len() == 0 || exists|i: int| #[trigger]
                is_best(fs@, w, h, avf_of(pixfmt), i) && fs@[i].width == 0,
        },
{
    let subtype: u32 = avf_format(pixfmt);
    if fs.len() == 0 {
        return None;
    }
    let mut best: usize = 0;
    let mut best_score: i128 = score_of(&fs[0], w, h, subtype);
    let mut i: usize = 1;
    while i < fs.len()
        invariant
            1 <= i <= fs@.len(),
            best < i,
            best_score == score(fs@[best as int], w, h, subtype),
            forall|j: int|
                0 <= j < best ==> score(#[trigger] fs@[j], w, h, subtype) < best_score,
            forall|j: int|
                best < j < i ==> score(#[trigger] fs@[j], w, h, subtype) <= best_score,
        decreases fs@.len() - i,
    {
        let s: i128 = score_of(&fs[i], w, h, subtype);
        if s > best_score {
            best = i;
            best_score = s;
        }
        i += 1;
    }
    assert(is_best(fs@, w, h, subtype, best as int));
    if fs[best].width > 0 {
        Some(best)
    } else {
        None
    }
}

/// A format of the wanted size is always chosen over one of another size, so
/// long as no frame rate is absurd.
pub proof fn law_exact_size_wins(a: DeviceFormat, b: DeviceFormat, w: u32, h: u32, subtype: u32)
    requires
        a.width == w,
        a.height == h,
        b.width != w || b.height != h,
        a.max_fps >= 0,
        b.max_fps <= 8_000_000,
    ensures
        score(a, w, h, subtype) > score(b, w, h, subtype),
{
}

/// Whether device `i` comes before device `j` in the list by name; of two with
/// one name the one found first.
pub open spec fn listed_before(names: Seq<Seq<char>>, i: int, j: int) -> bool {
    text::comes_before(names[i], names[j]) || (names[i] == names[j] && i < j)
}

/// How many of the first `n` devices come before device `i` in the list.
pub open spec fn rank(names: Seq<Seq<char>>, i: int, n: int) -> nat
    decreases n,
{
    if n <= 0 {
        0
    } else {
        rank(names, i, n - 1) + if listed_before(names, n - 1, i) {
            1nat
        } else {
            0
        }
    }
}

/// Whether the name of a device contains a text, whatever the case.
pub open spec fn is_named(name: Seq<char>, needle: Seq<char>) -> bool {
    text::occurs(text::lower(name), text::lower(needle))
}

/// Why no device was found.
#[derive(Clone, Copy, Debug, PartialEq, Eq, Structural)]
pub enum FindError {
    NoDevices,
    /// The number is beyond the last device.
    OutOfRange,
    /// No name contains the text.
    NotFound,
}

/// What looking for a device comes to: by its number in the list by name, or
/// by a part of its name, in which case the first in the list is taken.
pub open spec fn is_found(names: Seq<Seq<char>>, device: Seq<char>, r: Result<usize, FindError>) -> bool {
    if names.len() == 0 {
        r == Err::<usize, FindError>(FindError::NoDevices)
    } else {
        match number::number_up_to(device, usize::MAX as nat) {
            Some(n) => if n >= names.len() {
                r == Err::<usize, FindError>(FindError::OutOfRange)
            } else {
                r matches Ok(i) && 0 <= i < names.len() && rank(
                    names,
                    i as int,
                    names.len() as int,
                ) == n
            },
            None => match r {
                Ok(i) => 0 <= i < names.len() && is_named(names[i as int], device) && forall|j: int|
                    0 <= j < names.len() && listed_before(names, j, i as int) ==> !is_named(
                        #[trigger] names[j],
                        device,
                    ),
                Err(e) => e == FindError::NotFound && forall|j: int|
                    0 <= j < names.len() ==> !is_named(#[trigger] names[j], device),
            },
        }
    }
}

fn earlier(names: &[Vec<char>], i: usize, j: usize) -> (r: bool)
    requires
        i < names@.len(),
        j < names@.len(),
    ensures
        r == listed_before(text::texts(names@), i as int, j as int),
{
    text::precedes(names[i].as_slice(), names[j].as_slice()) || (text::alike(
        names[i].as_slice(),
        names[j].as_slice(),
    ) && i < j)
}

fn rank_of(names: &[Vec<char>], i: usize) -> (r: usize)
    requires
        i < names@.len(),
    ensures
        r == rank(text::texts(names@), i as int, names@.len() as int),
{
    let mut count: usize = 0;
    let mut j: usize = 0;
    while j < names.len()
        invariant
            i < names@.len(),
            j <= names@.len(),
            count <= j,
            count == rank(text::texts(names@), i as int, j as int),
        decreases names@.len() - j,
    {
        if earlier(names, j, i) {
            count = count + 1;
        }
        j += 1;
    }
    count
}

/// Finds the device that is meant.
pub fn find_device(names: &[Vec<char>], device: &str) -> (r: Result<usize, FindError>)
    ensures
        is_found(text::texts(names@), device@, r),
{
    let ghost all = text::texts(names@);
    if names.len() == 0 {
        return Err(FindError::NoDevices);
    }
    let d = text::chars_of(device);
    match number::parse_usize(d.as_slice()) {
        Some(n) => {
            if n >= names.len() {
                return Err(FindError::OutOfRange);
            }
            let mut i: usize = 0;
            while i < names.len()
                invariant
                    i <= names@.len(),
                    all == text::texts(names@),
                    n < names@.len(),
                    number::number_up_to(device@, usize::MAX as nat) == Some(n as nat),
                    forall|j: int|
                        0 <= j < i ==> rank(all, j, names@.len() as int) != n,
                decreases names@.len() - i,
            {
                if rank_of(names, i) == n {
                    return Ok(i);
                }
                i += 1;
            }
            proof {
                lemma_some_rank(all, n as int);
            }
            Err(FindError::OutOfRange)
        },
        None => {
            let low = text::to_lower(d.as_slice());
            let mut best: Option<usize> = None;
            let mut i: usize = 0;
            while i < names.len()
                invariant
                    i <= names@.len(),
                    all == text::texts(names@),
                    low@ == text::lower(device@),
                    match best {
                        None => forall|j: int|
                            0 <= j < i ==> !is_named(#[trigger] all[j], device@),
                        Some(b) => b < i && is_named(all[b as int], device@) && forall|j: int|
                            0 <= j < i && listed_before(all, j, b as int) ==> !is_named(
                                #[trigger] all[j],
                                device@,
                            ),
                    },
                decreases names@.len() - i,
            {
                assert(all[i as int] == names@[i as int]@);
                let name = text::to_lower(names[i].as_slice());
                if text::contains(name.as_slice(), low.as_slice()) {
                    match best {
                        None => {
                            best = Some(i);
                            proof {
                                lemma_not_before_itself(all, i as int);
                            }
                        },
                        Some(b) => {
                            if earlier(names, i, b) {
                                proof {
                                    assert forall|j: int|
                                        0 <= j < i + 1 && listed_before(
                                            all,
                                            j,
                                            i as int,
                                        ) implies !is_named(#[trigger] all[j], device@) by {
                                        if j == i {
                                            lemma_not_before_itself(all, i as int);
                                        } else {
                                            lemma_before_transitive(all, j, i as int, b as int);
                                        }
                                    }
                                }
                                best = Some(i);
                            }
                        },
                    }
                }
                i += 1;
            }
            match best {
                Some(b) => Ok(b),
                None => Err(FindError::NotFound),
            }
        },
    }
}

proof fn lemma_not_before_itself(names: Seq<Seq<char>>, i: int)
    ensures
        !listed_before(names, i, i),
{
    text::law_text_order_is_total(names[i], names[i]);
}

proof fn lemma_comes_transitive(a: Seq<char>, b: Seq<char>, c: Seq<char>)
    requires
        text::comes_before(a, b),
        text::comes_before(b, c),
    ensures
        text::comes_before(a, c),
    decreases a.len(),
{
    if a.len() > 0 && a[0] == b[0] && b[0] == c[0] {
        lemma_comes_transitive(a.drop_first(), b.drop_first(), c.drop_first());
    }
}

proof fn lemma_before_transitive(names: Seq<Seq<char>>, a: int, b: int, c: int)
    requires
        listed_before(names, a, b),
        listed_before(names, b, c),
    ensures
        listed_before(names, a, c),
{
    if text::comes_before(names[a], names[b]) && text::comes_before(names[b], names[c]) {
        lemma_comes_transitive(names[a], names[b], names[c]);
    }
}

proof fn lemma_rank_grows(names: Seq<Seq<char>>, i: int, k: int, n: int)
    requires
        listed_before(names, i, k),
    ensures
        rank(names, i, n) <= rank(names, k, n),
        0 <= i < n ==> rank(names, i, n) < rank(names, k, n),
    decreases n,
{
    if n > 0 {
        lemma_rank_grows(names, i, k, n - 1);
        lemma_not_before_itself(names, i);
        if listed_before(names, n - 1, i) {
            lemma_before_transitive(names, n - 1, i, k);
        }
    }
}

proof fn lemma_rank_bound(names: Seq<Seq<char>>, i: int, n: int)
    requires
        n >= 0,
    ensures
        rank(names, i, n) <= n,
    decreases n,
{
    if n > 0 {
        lemma_rank_bound(names, i, n - 1);
    }
}

/// Every place in the list has a device, among the first `n`.
proof fn lemma_rank_onto(names: Seq<Seq<char>>, n: int, t: int) -> (i: int)
    requires
        0 <= t < n <= names.len(),
    ensures
        0 <= i < n,
        rank(names, i, n) == t,
    decreases n,
{
    let k = n - 1;
    let r0 = rank(names, k, k);
    lemma_rank_bound(names, k, k);
    lemma_not_before_itself(names, k);
    if t == r0 {
        k
    } else if t < r0 {
        let i = lemma_rank_onto(names, k, t);
        if listed_before(names, k, i) {
            lemma_rank_grows(names, k, i, k);
        }
        i
    } else {
        let i = lemma_rank_onto(names, k, t - 1);
        text::law_text_order_is_total(names[i], names[k]);
        if listed_before(names, i, k) {
            lemma_rank_grows(names, i, k, k);
        }
        i
    }
}

proof fn lemma_some_rank(names: Seq<Seq<char>>, t: int)
    requires
        0 <= t < names.len(),
    ensures
        exists|i: int| 0 <= i < names.len() && rank(names, i, names.len() as int) == t,
{
    let i = lemma_rank_onto(names, names.len() as int, t);
    assert(rank(names, i, names.len() as int) == t);
}

/// No two devices share a place in the list, and every place has one.
pub proof fn law_device_numbers_are_stable(names: Seq<Seq<char>>, i: int, j: int, t: int)
    requires
        0 <= i < names.len(),
        0 <= j < names.len(),
        0 <= t < names.len(),
    ensures
        i != j ==> rank(names, i, names.len() as int) != rank(names, j, names.len() as int),
        exists|k: int| 0 <= k < names.len() && rank(names, k, names.len() as int) == t,
{
    lemma_some_rank(names, t);
    text::law_text_order_is_total(names[i], names[j]);
    if i != j {
        if listed_before(names, i, j) {
            lemma_rank_grows(names, i, j, names.len() as int);
        } else {
            lemma_rank_grows(names, j, i, names.len() as int);
        }
    }
}

/// The bytes of rows without the padding behind each.
pub open spec fn stripped(src: Seq<u8>, stride: int, row_len: int, rows: int) -> Seq<u8> {
    Seq::new((row_len * rows) as nat, |i: int| src[(i / row_len) * stride + i % row_len])
}

/// Takes the padding out of rows.
pub fn strip_rows(src: &[u8], stride: usize, row_len: usize, rows: usize) -> (r: Vec<u8>)
    requires
        row_len <= stride,
        stride * rows <= usize::MAX,
        rows > 0 ==> (rows - 1) * stride + row_len <= src@.len(),
    ensures
        r@ == stripped(src@, stride as int, row_len as int, rows as int),
{
    let mut out: Vec<u8> = Vec::new();
    let len: usize = src.len();
    let mut row: usize = 0;
    assert(row_len * 0 == 0) by (nonlinear_arith);
    assert(out@ =~= stripped(src@, stride as int, row_len as int, 0));
    while row < rows
        invariant
            row <= rows,
            row_len <= stride,
            stride * rows <= usize::MAX,
            len == src@.len(),
            rows > 0 ==> (rows - 1) * stride + row_len <= src@.len(),
            out@ == stripped(src@, stride as int, row_len as int, row as int),
        decreases rows - row,
    {
        proof {
            assert(row * stride <= (rows - 1) * stride && row * stride <= stride * rows && 0 <= row
                * stride) by (nonlinear_arith)
                requires
                    0 <= row <= rows - 1,
                    0 <= stride,
            ;
        }
        let base: usize = row * stride;
        let ghost before = out@;
        let mut col: usize = 0;
        while col < row_len
            invariant
                col <= row_len,
                base == row * stride,
                base + row_len <= len == src@.len(),
                out@ == before + src@.subrange(base as int, base + col),
            decreases row_len - col,
        {
            out.push(src[base + col]);
            col += 1;
            assert(out@ =~= before + src@.subrange(base as int, base + col));
        }
        proof {
            lemma_strip_row(src@, stride as int, row_len as int, row as int, before, out@);
        }
        row += 1;
    }
    out
}

proof fn lemma_strip_row(
    src: Seq<u8>,
    stride: int,
    row_len: int,
    row: int,
    before: Seq<u8>,
    after: Seq<u8>,
)
    requires
        0 <= row,
        0 <= row_len <= stride,
        0 <= row * stride,
        row * stride + row_len <= src.len(),
        before == stripped(src, stride, row_len, row),
        after == before + src.subrange(row * stride, row * stride + row_len),
    ensures
        after == stripped(src, stride, row_len, row + 1),
{
    let all = stripped(src, stride, row_len, row + 1);
    assert(row_len * (row + 1) == row_len * row + row_len && row_len * row >= 0) by (nonlinear_arith)
        requires
            row >= 0,
            row_len >= 0,
    ;
    assert forall|i: int| 0 <= i < all.len() implies all[i] == after[i] by {
        if i < row_len * row {
            assert(after[i] == before[i]);
        } else {
            let c = i - row_len * row;
            assert(i == row * row_len + c) by (nonlinear_arith)
                requires
                    c == i - row_len * row,
            ;
            vstd::arithmetic::div_mod::lemma_fundamental_div_mod_converse(i, row_len, row, c);
        }
    }
    assert(after =~= all);
}

/// Takes the padding out of a planar frame: the luma rows, then the chroma rows,
/// of which there are half as many.
pub fn pack_planar(
    y: &[u8],
    y_stride: usize,
    uv: &[u8],
    uv_stride: usize,
    w: usize,
    h: usize,
) -> (r: Vec<u8>)
    requires
        w <= y_stride,
        w <= uv_stride,
        y_stride * h <= usize::MAX,
        uv_stride * h <= usize::MAX,
        h > 0 ==> (h - 1) * y_stride + w <= y@.len(),
        h / 2 > 0 ==> (h / 2 - 1) * uv_stride + w <= uv@.len(),
    ensures
        r@ == stripped(y@, y_stride as int, w as int, h as int) + stripped(
            uv@,
            uv_stride as int,
            w as int,
            h as int / 2,
        ),
{
    assert(uv_stride * (h / 2) <= usize::MAX) by (nonlinear_arith)
        requires
            uv_stride * h <= usize::MAX,
            0 <= uv_stride,
            0 <= h,
    ;
    let mut out = strip_rows(y, y_stride, w, h);
    let mut chroma = strip_rows(uv, uv_stride, w, h / 2);
    out.append(&mut chroma);
    out
}

/// The number of bytes that a frame is said to have.
pub open spec fn frame_bytes(planar: bool, w: int, h: int) -> int {
    if planar {
        w * h + w * h / 2
    } else {
        w * 2 * h
    }
}

/// Works out how many bytes a frame has.
pub fn frame_length(planar: bool, w: u32, h: u32) -> (r: u128)
    ensures
        r == frame_bytes(planar, w as int, h as int),
{
    assert(0 <= w * h <= u32::MAX * u32::MAX && w * 2 * h == 2 * (w * h)) by (nonlinear_arith)
        requires
            0 <= w <= u32::MAX,
            0 <= h <= u32::MAX,
    ;
    let n: u128 = w as u128 * h as u128;
    if planar {
        n + n / 2
    } else {
        2 * n
    }
}

/// The buffer that a frame is said to be in.
pub fn frame_index(seq: u32) -> (r: u32)
    ensures
        r == seq % 8,
{
    seq % 8
}

} // verus!
