//! Neural frame interpolation: what a model expects, and the layout of its
//! input and output.

use vstd::prelude::*;

use crate::text;

verus! {

/// A side rounded up to a multiple of 32.
pub open spec fn padded_side(n: int) -> int {
    (n + 31) / 32 * 32
}

/// Rounds a side up to what a model can take.
pub fn pad_side(n: u32) -> (r: u32)
    requires
        n <= u32::MAX - 31,
    ensures
        r == padded_side(n as int),
        r >= n,
        r % 32 == 0,
{
    (n + 31) / 32 * 32
}

/// Whether a model takes both frames in one input: it has only one, or its
/// first has six channels.
pub fn takes_both_at_once(inputs: usize, channels: Option<i64>) -> (r: bool)
    ensures
        r == (inputs == 1 || channels == Some(6i64)),
{
    inputs == 1 || match channels {
        Some(c) => c == 6,
        None => false,
    }
}

/// Whether an input's name, in lower case, is that of a time.
pub open spec fn names_time(low: Seq<char>) -> bool {
    text::occurs(low, "timestep"@) || text::occurs(low, "time"@)
}

/// Whether a model takes a time: an input's name has it, whatever the case.
pub fn takes_time(names: &[String]) -> (r: bool)
    ensures
        r == exists|i: int|
            0 <= i < names@.len() && names_time(text::lower((#[trigger] names@[i])@)),
{
    let timestep = text::chars_of("timestep");
    let time = text::chars_of("time");
    let mut i: usize = 0;
    while i < names.len()
        invariant
            i <= names@.len(),
            timestep@ == "timestep"@,
            time@ == "time"@,
            forall|j: int| 0 <= j < i ==> !names_time(text::lower((#[trigger] names@[j])@)),
        decreases names@.len() - i,
    {
        let low = text::to_lower(text::chars_of(names[i].as_str()).as_slice());
        if text::contains(low.as_slice(), timestep.as_slice()) || text::contains(
            low.as_slice(),
            time.as_slice(),
        ) {
            assert(names_time(text::lower(names@[i as int]@)));
            return true;
        }
        i += 1;
    }
    false
}

/// Where a byte of a model's input comes from in the frame: planes of red,
/// green and blue, with the last column and row repeated in the padding.
pub open spec fn source_of(w: int, h: int, pw: int, ph: int, i: int) -> int {
    let c = i / (pw * ph);
    let y = i % (pw * ph) / pw;
    let x = i % (pw * ph) % pw;
    let sy = if y < h {
        y
    } else {
        h - 1
    };
    let sx = if x < w {
        x
    } else {
        w - 1
    };
    (sy * w + sx) * 4 + c
}

/// Spreads a frame of four bytes a pixel out into padded planes.
pub fn rgba_to_nchw(buf: &[u8], w: u32, h: u32, pw: u32, ph: u32) -> (r: Vec<u8>)
    requires
        ph > 0 ==> h > 0 && (pw > 0 ==> w > 0),
        buf@.len() >= 4 * (w * h),
    ensures
        r@.len() == 3 * (pw * ph),
        forall|i: int|
            0 <= i < r@.len() ==> #[trigger] r@[i] == buf@[source_of(
                w as int,
                h as int,
                pw as int,
                ph as int,
                i,
            )],
{
    let len: usize = buf.len();
    assert(0 <= pw * ph <= u32::MAX * u32::MAX) by (nonlinear_arith)
        requires
            0 <= pw <= u32::MAX,
            0 <= ph <= u32::MAX,
    ;
    let plane: u128 = pw as u128 * ph as u128;
    let mut out: Vec<u8> = Vec::new();
    let mut i: u128 = 0;
    while i < 3 * plane
        invariant
            plane == pw * ph,
            plane <= u32::MAX * u32::MAX,
            i <= 3 * plane,
            ph > 0 ==> h > 0 && (pw > 0 ==> w > 0),
            len == buf@.len() >= 4 * (w * h),
            out@.len() == i,
            forall|j: int|
                0 <= j < i ==> #[trigger] out@[j] == buf@[source_of(
                    w as int,
                    h as int,
                    pw as int,
                    ph as int,
                    j,
                )],
        decreases 3 * plane - i,
    {
        proof {
            assert(pw > 0 && ph > 0) by (nonlinear_arith)
                requires
                    0 < pw * ph,
                    0 <= pw,
                    0 <= ph,
            ;
        }
        let c: u128 = i / plane;
        let q: u128 = i % plane;
        let y: u128 = q / pw as u128;
        let x: u128 = q % pw as u128;
        let sy: u128 = if y < h as u128 {
            y
        } else {
            h as u128 - 1
        };
        let sx: u128 = if x < w as u128 {
            x
        } else {
            w as u128 - 1
        };
        proof {
            assert(c < 3) by (nonlinear_arith)
                requires
                    c == i as int / plane as int,
                    0 <= i < 3 * plane,
                    plane > 0,
            ;
            assert(0 <= sy * w + sx < w * h) by (nonlinear_arith)
                requires
                    0 <= sx < w,
                    0 <= sy < h,
            ;
        }
        let at: usize = ((sy * w as u128 + sx) * 4 + c) as usize;
        assert(at == source_of(w as int, h as int, pw as int, ph as int, i as int));
        out.push(buf[at]);
        i += 1;
    }
    out
}

/// A byte of the frame that a model's output makes: its three planes side by
/// side without their padding, and full opacity.
pub open spec fn output_byte(planes: Seq<u8>, w: int, pw: int, ph: int, i: int) -> u8 {
    let p = i / 4;
    let c = i % 4;
    if c == 3 {
        255
    } else {
        planes[c * (pw * ph) + (p / w) * pw + p % w]
    }
}

/// Gathers a model's output into a frame of four bytes a pixel; `None` where it
/// is too small.
pub fn nchw_to_rgba(planes: &[u8], w: u32, h: u32, pw: u32, ph: u32) -> (r: Option<Vec<u8>>)
    requires
        w <= pw,
        h <= ph,
    ensures
        r is Some <==> planes@.len() >= 3 * (pw * ph),
        r matches Some(v) ==> v@.len() == 4 * (w * h) && forall|i: int|
            0 <= i < v@.len() ==> #[trigger] v@[i] == output_byte(
                planes@,
                w as int,
                pw as int,
                ph as int,
                i,
            ),
{
    let len: usize = planes.len();
    assert(0 <= pw * ph <= u32::MAX * u32::MAX && 0 <= w * h <= u32::MAX * u32::MAX)
        by (nonlinear_arith)
        requires
            0 <= w <= u32::MAX,
            0 <= h <= u32::MAX,
            0 <= pw <= u32::MAX,
            0 <= ph <= u32::MAX,
    ;
    let plane: u128 = pw as u128 * ph as u128;
    if (len as u128) < 3 * plane {
        return None;
    }
    let n: u128 = 4 * (w as u128 * h as u128);
    let mut out: Vec<u8> = Vec::new();
    let mut i: u128 = 0;
    while i < n
        invariant
            plane == pw * ph,
            plane <= u32::MAX * u32::MAX,
            n == 4 * (w * h),
            i <= n,
            w <= pw,
            h <= ph,
            len == planes@.len() >= 3 * plane,
            out@.len() == i,
            forall|j: int|
                0 <= j < i ==> #[trigger] out@[j] == output_byte(
                    planes@,
                    w as int,
                    pw as int,
                    ph as int,
                    j,
                ),
        decreases n - i,
    {
        proof {
            assert(w > 0) by (nonlinear_arith)
                requires
                    0 < 4 * (w * h),
            ;
            crate::convert::lemma_row_col(i as int / 4, w as int, h as int);
        }
        let p: u128 = i / 4;
        let c: u128 = i % 4;
        if c == 3 {
            out.push(255);
        } else {
            let row: u128 = p / w as u128;
            let col: u128 = p % w as u128;
            proof {
                assert(0 <= c * plane && c * plane + row * pw + col < 3 * plane && 0 <= row * pw)
                    by (nonlinear_arith)
                    requires
                        0 <= c < 3,
                        plane == pw * ph,
                        0 <= row < ph,
                        0 <= col < pw,
                ;
            }
            let at: usize = (c * plane + row * pw as u128 + col) as usize;
            out.push(planes[at]);
        }
        i += 1;
    }
    Some(out)
}

/// A frame spread out into planes and gathered again has the
/// colours that it had.
pub proof fn law_planes_give_the_frame_back(
    buf: Seq<u8>,
    planes: Seq<u8>,
    w: int,
    h: int,
    pw: int,
    ph: int,
    i: int,
)
    requires
        0 < w <= pw,
        0 < h <= ph,
        planes.len() == 3 * (pw * ph),
        forall|k: int|
            0 <= k < planes.len() ==> #[trigger] planes[k] == buf[source_of(w, h, pw, ph, k)],
        0 <= i < 4 * (w * h),
        i % 4 != 3,
    ensures
        output_byte(planes, w, pw, ph, i) == buf[i],
{
    let p = i / 4;
    let c = i % 4;
    crate::convert::lemma_row_col(p, w, h);
    let row = p / w;
    let col = p % w;
    let q = row * pw + col;
    let plane = pw * ph;
    assert(0 <= q < plane && 0 <= c * plane && c * plane + q < 3 * plane) by (nonlinear_arith)
        requires
            0 <= c < 3,
            plane == pw * ph,
            q == row * pw + col,
            0 <= row < ph,
            0 <= col < pw,
    ;
    let k = c * plane + q;
    assert(k == c * plane + row * pw + col);
    vstd::arithmetic::div_mod::lemma_fundamental_div_mod_converse(k, plane, c, q);
    vstd::arithmetic::div_mod::lemma_fundamental_div_mod_converse(q, pw, row, col);
    assert(source_of(w, h, pw, ph, k) == (row * w + col) * 4 + c);
    assert(planes[k] == buf[source_of(w, h, pw, ph, k)]);
}

/// What the interpolator keeps of a model and of the frames.
pub struct RifeInterpolator {
    pub width: u32,
    pub height: u32,
    pub pad_w: u32,
    pub pad_h: u32,
    /// Whether both frames go into one input.
    pub concat_input: bool,
    /// Whether the model takes a time.
    pub has_timestep: bool,
}

impl RifeInterpolator {
    /// What the fields say of each other.
    pub open spec fn wf(&self) -> bool {
        &&& self.pad_w == padded_side(self.width as int)
        &&& self.pad_h == padded_side(self.height as int)
    }

    /// Looks at a model's inputs: their names, and how many channels the first
    /// has. `None` where there is none.
    pub fn new(names: &[String], channels: Option<i64>, width: u32, height: u32) -> (r: Option<
        RifeInterpolator,
    >)
        requires
            width <= u32::MAX - 31,
            height <= u32::MAX - 31,
        ensures
            r is None <==> names@.len() == 0,
            r matches Some(m) ==> {
                &&& m.wf()
                &&& m.width == width
                &&& m.height == height
                &&& m.concat_input == (names@.len() == 1 || channels == Some(6i64))
                &&& m.has_timestep == exists|i: int|
                    0 <= i < names@.len() && names_time(text::lower((#[trigger] names@[i])@))
            },
    {
        if names.len() == 0 {
            return None;
        }
        Some(
            RifeInterpolator {
                width,
                height,
                pad_w: pad_side(width),
                pad_h: pad_side(height),
                concat_input: takes_both_at_once(names.len(), channels),
                has_timestep: takes_time(names),
            },
        )
    }

    /// Lays two frames out as the model takes them: one input with the planes of
    /// both, or one input each.
    pub fn inputs(&self, prev: &[u8], curr: &[u8]) -> (r: Vec<Vec<u8>>)
        requires
            self.wf(),
            prev@.len() >= 4 * (self.width * self.height),
            curr@.len() >= 4 * (self.width * self.height),
        ensures
            r@.len() == (if self.concat_input {
                1int
            } else {
                2
            }),
            self.concat_input ==> r@[0]@ == self.laid_out(prev@) + self.laid_out(curr@),
            !self.concat_input ==> r@[0]@ == self.laid_out(prev@) && r@[1]@ == self.laid_out(
                curr@,
            ),
    {
        let mut a = rgba_to_nchw(prev, self.width, self.height, self.pad_w, self.pad_h);
        let b = rgba_to_nchw(curr, self.width, self.height, self.pad_w, self.pad_h);
        assert(a@ =~= self.laid_out(prev@));
        assert(b@ =~= self.laid_out(curr@));
        let mut out: Vec<Vec<u8>> = Vec::new();
        if self.concat_input {
            let ghost first = a@;
            let mut i: usize = 0;
            while i < b.len()
                invariant
                    i <= b@.len(),
                    a@ == first + b@.take(i as int),
                decreases b@.len() - i,
            {
                a.push(b[i]);
                i += 1;
                assert(a@ =~= first + b@.take(i as int));
            }
            assert(b@.take(i as int) =~= b@);
            out.push(a);
        } else {
            out.push(a);
            out.push(b);
        }
        out
    }

    /// The planes of a frame.
    pub open spec fn laid_out(&self, frame: Seq<u8>) -> Seq<u8> {
        Seq::new(
            (3 * (self.pad_w * self.pad_h)) as nat,
            |i: int|
                frame[source_of(
                    self.width as int,
                    self.height as int,
                    self.pad_w as int,
                    self.pad_h as int,
                    i,
                )],
        )
    }

    /// The frame that a model's output makes; `None` where the output is too
    /// small.
    pub fn output(&self, planes: &[u8]) -> (r: Option<Vec<u8>>)
        requires
            self.wf(),
        ensures
            r is Some <==> planes@.len() >= 3 * (self.pad_w * self.pad_h),
            r matches Some(v) ==> v@ == Seq::new(
                (4 * (self.width * self.height)) as nat,
                |i: int|
                    output_byte(
                        planes@,
                        self.width as int,
                        self.pad_w as int,
                        self.pad_h as int,
                        i,
                    ),
            ),
    {
        assert(self.width <= self.pad_w && self.height <= self.pad_h);
        nchw_to_rgba(planes, self.width, self.height, self.pad_w, self.pad_h)
    }

    /// The size of the frames.
    pub fn dimensions(&self) -> (r: (u32, u32))
        ensures
            r == (self.width, self.height),
    {
        (self.width, self.height)
    }
}

} // verus!
