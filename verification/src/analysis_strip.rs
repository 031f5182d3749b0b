//! Analysis strips: captured frames, cropped and scaled, are collected and laid
//! out in a grid, left to right and top to bottom, with grey lines between
//! them. Each full grid becomes one picture of a numbered series.

use vstd::prelude::*;

use crate::convert::{self, Area, Rgb};
use crate::number;
use crate::text;

verus! {

/// The width to which frames are scaled.
pub const TARGET_WIDTH: u32 = 960;

/// The JPEG quality of a strip.
pub const STRIP_JPEG_QUALITY: u32 = 70;

/// How many bytes of frames may wait before a grid is written though it is not
/// full.
pub const MAX_BUFFER_BYTES: usize = 536870912;

/// The width of the lines between cells, in pixels.
pub const SEPARATOR_PX: u32 = 4;

/// The value of all three channels of the lines.
pub const SEPARATOR: u8 = 0x33;

/// Where a grid is written.
#[derive(Clone, Copy, Debug, PartialEq, Eq, Structural)]
pub enum OutputMode {
    /// To a file of its own.
    File,
    /// To the archive of the session.
    Tar,
}

/// A picture of packed RGB.
pub struct Frame {
    pub width: u32,
    pub height: u32,
    pub rgb: Vec<u8>,
}

impl Frame {
    /// A frame has three bytes for each of its pixels.
    pub open spec fn wf(&self) -> bool {
        self.rgb@.len() == 3 * convert::pixels(self.width, self.height)
    }

    /// The pixel at a place.
    pub open spec fn pixel(&self, x: int, y: int) -> Rgb {
        let p = y * self.width + x;
        Rgb { r: self.rgb@[3 * p], g: self.rgb@[3 * p + 1], b: self.rgb@[3 * p + 2] }
    }
}

/// The frames of a session that wait for their grid, and what it has written.
pub struct AnalysisStrip {
    /// Frames that wait.
    pub buffer: Vec<Frame>,
    /// Columns of the grid.
    pub cols: u32,
    /// Rows of the grid.
    pub rows: u32,
    /// How many grids were written.
    pub strip_index: u32,
    /// How many frames the session took.
    pub total_frames: u32,
    /// Where files go.
    pub output_dir: String,
    /// Where the archive is.
    pub tar_path: String,
}

/// The name of a session's archive.
pub open spec fn tar_name(secs: nat) -> Seq<char> {
    "capview_strips_"@ + number::decimal(secs) + ".tar"@
}

/// A name in a directory.
pub open spec fn joined_path(dir: Seq<char>, name: Seq<char>) -> Seq<char> {
    if dir.len() == 0 || dir.last() == '/' {
        dir + name
    } else {
        dir.push('/') + name
    }
}

/// The name of a grid in its series.
pub open spec fn entry_name(index: nat) -> Seq<char> {
    "strip_"@ + number::padded_left(number::decimal(index), 3, '0') + ".jpg"@
}

/// The greater of a number and one.
pub open spec fn at_least_one(n: u32) -> u32 {
    if n == 0 {
        1
    } else {
        n
    }
}

/// How many bytes a row of frames holds.
pub open spec fn total_bytes(frames: Seq<Frame>) -> nat
    decreases frames.len(),
{
    if frames.len() == 0 {
        0
    } else {
        total_bytes(frames.drop_last()) + frames.last().rgb@.len()
    }
}

/// The greatest width.
pub open spec fn max_width(frames: Seq<Frame>) -> u32
    decreases frames.len(),
{
    if frames.len() == 0 {
        0
    } else if frames.last().width > max_width(frames.drop_last()) {
        frames.last().width
    } else {
        max_width(frames.drop_last())
    }
}

/// The greatest height.
pub open spec fn max_height(frames: Seq<Frame>) -> u32
    decreases frames.len(),
{
    if frames.len() == 0 {
        0
    } else if frames.last().height > max_height(frames.drop_last()) {
        frames.last().height
    } else {
        max_height(frames.drop_last())
    }
}

/// How many columns of a grid frames fill.
pub open spec fn used_cols(frames: Seq<Frame>, cols: int) -> int {
    if cols < frames.len() {
        cols
    } else {
        frames.len() as int
    }
}

/// How many rows of a grid frames fill.
pub open spec fn used_rows(frames: Seq<Frame>, cols: int) -> int {
    (frames.len() + cols - 1) / cols
}

/// The width of a grid: cells as wide as the widest frame and lines between
/// them.
pub open spec fn grid_width(frames: Seq<Frame>, cols: int) -> int {
    used_cols(frames, cols) * max_width(frames) + (used_cols(frames, cols) - 1) * SEPARATOR_PX
}

/// The height of a grid.
pub open spec fn grid_height(frames: Seq<Frame>, cols: int) -> int {
    used_rows(frames, cols) * max_height(frames) + (used_rows(frames, cols) - 1) * SEPARATOR_PX
}

/// The pixel of a grid at a place: grey on the lines, else that of the frame
/// whose cell it is, which stands in the middle of its cell, else black.
pub open spec fn grid_pixel(frames: Seq<Frame>, cols: int, x: int, y: int) -> Rgb {
    let cell_w = max_width(frames) as int;
    let cell_h = max_height(frames) as int;
    let ox = x % (cell_w + SEPARATOR_PX);
    let oy = y % (cell_h + SEPARATOR_PX);
    let i = (y / (cell_h + SEPARATOR_PX)) * cols + x / (cell_w + SEPARATOR_PX);
    if ox >= cell_w || oy >= cell_h {
        Rgb { r: SEPARATOR, g: SEPARATOR, b: SEPARATOR }
    } else if i < frames.len() {
        cell_pixel(frames[i], cell_w, cell_h, ox, oy)
    } else {
        Rgb { r: 0, g: 0, b: 0 }
    }
}

/// The pixel of a cell at a place.
pub open spec fn cell_pixel(f: Frame, cell_w: int, cell_h: int, ox: int, oy: int) -> Rgb {
    let fx = ox - (cell_w - f.width) / 2;
    let fy = oy - (cell_h - f.height) / 2;
    if 0 <= fx < f.width && 0 <= fy < f.height {
        f.pixel(fx, fy)
    } else {
        Rgb { r: 0, g: 0, b: 0 }
    }
}

/// Whether every frame is whole.
pub open spec fn frames_wf(frames: Seq<Frame>) -> bool {
    forall|i: int| 0 <= i < frames.len() ==> (#[trigger] frames[i]).wf()
}

/// Whether a picture is the grid of frames.
pub open spec fn is_grid(g: Frame, frames: Seq<Frame>, cols: int) -> bool {
    &&& g.width == grid_width(frames, cols)
    &&& g.height == grid_height(frames, cols)
    &&& convert::is_picture(
        g.rgb@,
        convert::pixels(g.width, g.height),
        |p: int| grid_pixel(frames, cols, p % g.width as int, p / g.width as int),
    )
}

/// Whether a grid is small enough to be addressed.
pub open spec fn grid_fits(frames: Seq<Frame>, cols: int) -> bool {
    &&& grid_width(frames, cols) * grid_height(frames, cols) * 3 <= u32::MAX
    &&& grid_width(frames, cols) <= u32::MAX
    &&& grid_height(frames, cols) <= u32::MAX
}

fn widest(frames: &Vec<Frame>) -> (r: u32)
    ensures
        r == max_width(frames@),
{
    let mut m: u32 = 0;
    let mut i: usize = 0;
    assert(frames@.take(0) =~= Seq::<Frame>::empty());
    while i < frames.len()
        invariant
            i <= frames@.len(),
            m == max_width(frames@.take(i as int)),
        decreases frames@.len() - i,
    {
        assert(frames@.take(i + 1).drop_last() =~= frames@.take(i as int));
        if frames[i].width > m {
            m = frames[i].width;
        }
        i += 1;
    }
    assert(frames@.take(i as int) =~= frames@);
    m
}

fn tallest(frames: &Vec<Frame>) -> (r: u32)
    ensures
        r == max_height(frames@),
{
    let mut m: u32 = 0;
    let mut i: usize = 0;
    assert(frames@.take(0) =~= Seq::<Frame>::empty());
    while i < frames.len()
        invariant
            i <= frames@.len(),
            m == max_height(frames@.take(i as int)),
        decreases frames@.len() - i,
    {
        assert(frames@.take(i + 1).drop_last() =~= frames@.take(i as int));
        if frames[i].height > m {
            m = frames[i].height;
        }
        i += 1;
    }
    assert(frames@.take(i as int) =~= frames@);
    m
}

proof fn lemma_max(frames: Seq<Frame>, i: int)
    requires
        0 <= i < frames.len(),
    ensures
        frames[i].width <= max_width(frames),
        frames[i].height <= max_height(frames),
    decreases frames.len(),
{
    if i < frames.len() - 1 {
        lemma_max(frames.drop_last(), i);
        assert(frames.drop_last()[i] == frames[i]);
    }
}

fn pixel_in_cell(f: &Frame, cell_w: u32, cell_h: u32, ox: u32, oy: u32) -> (r: Rgb)
    requires
        f.wf(),
        f.width <= cell_w,
        f.height <= cell_h,
    ensures
        r == cell_pixel(*f, cell_w as int, cell_h as int, ox as int, oy as int),
{
    let off_x: u32 = (cell_w - f.width) / 2;
    let off_y: u32 = (cell_h - f.height) / 2;
    if ox >= off_x && ox - off_x < f.width && oy >= off_y && oy - off_y < f.height {
        let fx: u32 = ox - off_x;
        let fy: u32 = oy - off_y;
        let len: usize = f.rgb.len();
        proof {
            assert(0 <= fy * f.width + fx < f.width * f.height) by (nonlinear_arith)
                requires
                    0 <= fx < f.width,
                    0 <= fy < f.height,
            ;
        }
        let at: usize = (3 * (fy as u128 * f.width as u128 + fx as u128)) as usize;
        Rgb { r: f.rgb[at], g: f.rgb[at + 1], b: f.rgb[at + 2] }
    } else {
        Rgb { r: 0, g: 0, b: 0 }
    }
}

/// Lays frames out in a grid.
pub fn composite(frames: &Vec<Frame>, cols: u32) -> (r: Frame)
    requires
        frames@.len() > 0,
        cols > 0,
        frames_wf(frames@),
        grid_fits(frames@, cols as int),
    ensures
        is_grid(r, frames@, cols as int),
{
    let n: usize = frames.len();
    let cell_w: u32 = widest(frames);
    let cell_h: u32 = tallest(frames);
    let actual_cols: u64 = if (cols as u64) < n as u64 {
        cols as u64
    } else {
        n as u64
    };
    let actual_rows: u128 = (n as u128 + cols as u128 - 1) / cols as u128;
    proof {
        lemma_rows(n as int, cols as int);
        assert(actual_cols == used_cols(frames@, cols as int));
        assert(actual_rows == used_rows(frames@, cols as int));
        assert(0 <= actual_cols * cell_w && 0 <= actual_rows * cell_h) by (nonlinear_arith)
            requires
                0 <= actual_cols,
                0 <= actual_rows,
                0 <= cell_w,
                0 <= cell_h,
        ;
        assert(actual_cols * cell_w <= u32::MAX && actual_rows * cell_h <= u32::MAX);
        assert((actual_cols - 1) * 4 <= u32::MAX && (actual_rows - 1) * 4 <= u32::MAX);
    }
    let total_w: u32 = (actual_cols * cell_w as u64 + (actual_cols - 1) * SEPARATOR_PX as u64) as u32;
    let total_h: u32 = (actual_rows * cell_h as u128 + (actual_rows - 1) * SEPARATOR_PX as u128) as u32;
    let count: u64 = convert::pixel_count(total_w, total_h);
    let mut out: Vec<u8> = Vec::new();
    let ghost f = |p: int| grid_pixel(
        frames@,
        cols as int,
        p % total_w as int,
        p / total_w as int,
    );
    let mut p: u64 = 0;
    while p < count
        invariant
            count == convert::pixels(total_w, total_h),
            p <= count,
            n == frames@.len(),
            cols > 0,
            cell_w == max_width(frames@),
            cell_h == max_height(frames@),
            frames_wf(frames@),
            f == (|p: int|
                grid_pixel(frames@, cols as int, p % total_w as int, p / total_w as int)),
            convert::is_picture(out@, p as int, f),
        decreases count - p,
    {
        proof {
            assert(total_w > 0) by (nonlinear_arith)
                requires
                    0 < total_w * total_h,
            ;
            convert::lemma_row_col(p as int, total_w as int, total_h as int);
        }
        let x: u64 = p % total_w as u64;
        let y: u64 = p / total_w as u64;
        let pitch_x: u64 = cell_w as u64 + SEPARATOR_PX as u64;
        let pitch_y: u64 = cell_h as u64 + SEPARATOR_PX as u64;
        let ox: u64 = x % pitch_x;
        let oy: u64 = y % pitch_y;
        let c = if ox >= cell_w as u64 || oy >= cell_h as u64 {
            Rgb { r: SEPARATOR, g: SEPARATOR, b: SEPARATOR }
        } else {
            let row: u64 = y / pitch_y;
            let col: u64 = x / pitch_x;
            proof {
                assert(0 <= y as int / pitch_y as int <= u32::MAX && 0 <= x as int / pitch_x as int
                    <= u32::MAX) by (nonlinear_arith)
                    requires
                        0 <= y <= u32::MAX,
                        0 <= x <= u32::MAX,
                        pitch_y >= 1,
                        pitch_x >= 1,
                ;
                assert(0 <= row * cols <= u32::MAX * u32::MAX) by (nonlinear_arith)
                    requires
                        0 <= row <= u32::MAX,
                        0 <= cols <= u32::MAX,
                ;
            }
            let i: u128 = row as u128 * cols as u128 + col as u128;
            if i < n as u128 {
                proof {
                    lemma_max(frames@, i as int);
                    assert(frames@[i as int].wf());
                }
                pixel_in_cell(&frames[i as usize], cell_w, cell_h, ox as u32, oy as u32)
            } else {
                Rgb { r: 0, g: 0, b: 0 }
            }
        };
        convert::push_pixel(&mut out, c, Ghost(p as int), Ghost(f));
        p += 1;
    }
    Frame { width: total_w, height: total_h, rgb: out }
}

proof fn lemma_rows(n: int, cols: int)
    requires
        n > 0,
        cols > 0,
    ensures
        1 <= (n + cols - 1) / cols,
{
    assert(1 <= (n + cols - 1) / cols) by (nonlinear_arith)
        requires
            n > 0,
            cols > 0,
    ;
}

/// Every frame lies whole in its cell: the pixel at `(fx, fy)` of frame `i`
/// stands in the cell in column `i % cols` and row `i / cols`, moved by half of
/// what the cell is larger.
pub proof fn law_frames_land_in_their_cells(
    frames: Seq<Frame>,
    cols: int,
    i: int,
    fx: int,
    fy: int,
)
    requires
        cols > 0,
        0 <= i < frames.len(),
        0 <= fx < frames[i].width,
        0 <= fy < frames[i].height,
    ensures
        grid_pixel(
            frames,
            cols,
            (i % cols) * (max_width(frames) + SEPARATOR_PX) + (max_width(frames) - frames[i].width)
                / 2 + fx,
            (i / cols) * (max_height(frames) + SEPARATOR_PX) + (max_height(frames)
                - frames[i].height) / 2 + fy,
        ) == frames[i].pixel(fx, fy),
{
    lemma_max(frames, i);
    let pw = (max_width(frames) + SEPARATOR_PX) as int;
    let ph = (max_height(frames) + SEPARATOR_PX) as int;
    let ox = (max_width(frames) - frames[i].width) / 2 + fx;
    let oy = (max_height(frames) - frames[i].height) / 2 + fy;
    vstd::arithmetic::div_mod::lemma_fundamental_div_mod(i, cols);
    vstd::arithmetic::div_mod::lemma_fundamental_div_mod_converse((i % cols) * pw + ox, pw, i % cols, ox);
    vstd::arithmetic::div_mod::lemma_fundamental_div_mod_converse((i / cols) * ph + oy, ph, i / cols, oy);
    assert((i / cols) * cols == cols * (i / cols)) by (nonlinear_arith);
}

impl AnalysisStrip {
    /// The frames that wait.
    pub open spec fn frames(&self) -> Seq<Frame> {
        self.buffer@
    }

    /// How many grids were written.
    pub open spec fn index(&self) -> u32 {
        self.strip_index
    }

    /// How many frames the session took.
    pub open spec fn taken(&self) -> u32 {
        self.total_frames
    }

    /// Where files go.
    pub open spec fn dir(&self) -> Seq<char> {
        self.output_dir@
    }

    /// Where the archive is.
    pub open spec fn tar(&self) -> Seq<char> {
        self.tar_path@
    }

    /// Frames are whole, and the grid has a cell.
    pub open spec fn wf(&self) -> bool {
        frames_wf(self.buffer@) && self.cols > 0 && self.rows > 0
    }

    /// All but the frames and the counters are as before.
    pub open spec fn same_session(&self, other: &AnalysisStrip) -> bool {
        self.cols == other.cols && self.rows == other.rows && self.dir() == other.dir()
            && self.tar() == other.tar()
    }

    /// Starts a session at a time in seconds.
    pub fn new(output_dir: &str, cols: u32, rows: u32, secs: u64) -> (r: AnalysisStrip)
        ensures
            r.wf(),
            r.frames() == Seq::<Frame>::empty(),
            r.cols == at_least_one(cols),
            r.rows == at_least_one(rows),
            r.index() == 0,
            r.taken() == 0,
            r.dir() == output_dir@,
            r.tar() == joined_path(output_dir@, tar_name(secs as nat)),
    {
        let mut path = text::chars_of(output_dir);
        if path.len() > 0 && path[path.len() - 1] != '/' {
            path.push('/');
        }
        let ghost base = path@;
        text::extend(&mut path, text::chars_of("capview_strips_").as_slice());
        text::extend(&mut path, number::to_decimal(secs).as_slice());
        text::extend(&mut path, text::chars_of(".tar").as_slice());
        assert(path@ =~= base + tar_name(secs as nat));
        AnalysisStrip {
            buffer: Vec::new(),
            cols: if cols == 0 {
                1
            } else {
                cols
            },
            rows: if rows == 0 {
                1
            } else {
                rows
            },
            strip_index: 0,
            total_frames: 0,
            output_dir: output_dir.to_owned(),
            tar_path: text::string_of(path.as_slice()),
        }
    }

    /// How many frames fill a grid.
    pub fn capacity(&self) -> (r: usize)
        requires
            self.cols * self.rows <= u32::MAX,
        ensures
            r == self.cols * self.rows,
    {
        assert(0 <= self.cols * self.rows) by (nonlinear_arith)
            requires
                self.cols >= 0,
                self.rows >= 0,
        ;
        (self.cols * self.rows) as usize
    }

    /// How many frames wait.
    pub fn buffered_count(&self) -> (r: usize)
        ensures
            r == self.frames().len(),
    {
        self.buffer.len()
    }

    /// How many bytes wait, or the greatest number where that is less.
    pub fn buffered_bytes(&self) -> (r: usize)
        ensures
            r == (if total_bytes(self.frames()) <= usize::MAX {
                total_bytes(self.frames()) as int
            } else {
                usize::MAX as int
            }),
    {
        let mut sum: usize = 0;
        let mut i: usize = 0;
        assert(self.buffer@.take(0) =~= Seq::<Frame>::empty());
        while i < self.buffer.len()
            invariant
                i <= self.buffer@.len(),
                sum == (if total_bytes(self.buffer@.take(i as int)) <= usize::MAX {
                    total_bytes(self.buffer@.take(i as int)) as int
                } else {
                    usize::MAX as int
                }),
            decreases self.buffer@.len() - i,
        {
            assert(self.buffer@.take(i + 1).drop_last() =~= self.buffer@.take(i as int));
            sum = sum.saturating_add(self.buffer[i].rgb.len());
            i += 1;
        }
        assert(self.buffer@.take(i as int) =~= self.buffer@);
        sum
    }

    /// How many frames the session took.
    pub fn total_frames(&self) -> (r: u32)
        ensures
            r == self.taken(),
    {
        self.total_frames
    }

    /// How many grids were written.
    pub fn strip_count(&self) -> (r: u32)
        ensures
            r == self.index(),
    {
        self.strip_index
    }

    /// Where files go.
    pub fn output_dir(&self) -> (r: &str)
        ensures
            r@ == self.dir(),
    {
        self.output_dir.as_str()
    }

    /// Where the archive is.
    pub fn tar_path(&self) -> (r: &str)
        ensures
            r@ == self.tar(),
    {
        self.tar_path.as_str()
    }

    /// Changes the grid from the next picture on.
    pub fn set_grid(&mut self, cols: u32, rows: u32)
        requires
            old(self).wf(),
        ensures
            final(self).wf(),
            final(self).cols == at_least_one(cols),
            final(self).rows == at_least_one(rows),
            final(self).frames() == old(self).frames(),
            final(self).index() == old(self).index(),
            final(self).taken() == old(self).taken(),
            final(self).dir() == old(self).dir(),
            final(self).tar() == old(self).tar(),
    {
        self.cols =
        if cols == 0 {
            1
        } else {
            cols
        };
        self.rows =
        if rows == 0 {
            1
        } else {
            rows
        };
    }

    /// Takes a frame that was cropped and scaled. Tells whether the grid is now
    /// to be written: it is full, or too many bytes wait.
    pub fn ingest_frame(&mut self, frame: Frame) -> (r: bool)
        requires
            old(self).wf(),
            frame.wf(),
            old(self).taken() < u32::MAX,
            old(self).cols * old(self).rows <= u32::MAX,
        ensures
            final(self).wf(),
            final(self).same_session(old(self)),
            final(self).frames() == old(self).frames().push(frame),
            final(self).taken() == old(self).taken() + 1,
            final(self).index() == old(self).index(),
            r == (final(self).frames().len() >= final(self).cols * final(self).rows || total_bytes(
                final(self).frames(),
            ) >= MAX_BUFFER_BYTES),
    {
        let ghost before = self.buffer@;
        self.buffer.push(frame);
        self.total_frames = self.total_frames + 1;
        proof {
            assert forall|i: int| 0 <= i < self.buffer@.len() implies (
            #[trigger] self.buffer@[i]).wf() by {
                if i < before.len() {
                    assert(before[i].wf());
                }
            }
        }
        self.buffer.len() >= self.capacity() || self.buffered_bytes() >= MAX_BUFFER_BYTES
    }

    /// Lays the waiting frames out; `None` where none waits.
    pub fn composite_grid(&self) -> (r: Option<Frame>)
        requires
            self.wf(),
            grid_fits(self.frames(), self.cols as int),
        ensures
            self.frames().len() == 0 ==> r is None,
            self.frames().len() > 0 ==> (r matches Some(g) && is_grid(
                g,
                self.frames(),
                self.cols as int,
            )),
    {
        if self.buffer.len() == 0 {
            return None;
        }
        Some(composite(&self.buffer, self.cols))
    }

    /// Whether the grid of the waiting frames is small enough to be laid out.
    pub fn grid_fits(&self) -> (r: bool)
        requires
            self.cols > 0,
        ensures
            r == grid_fits(self.frames(), self.cols as int),
    {
        let n: usize = self.buffer.len();
        let cell_w: u32 = widest(&self.buffer);
        let cell_h: u32 = tallest(&self.buffer);
        let cols: i128 = if (self.cols as u64) < n as u64 {
            self.cols as i128
        } else {
            n as i128
        };
        let rows: i128 = (n as i128 + self.cols as i128 - 1) / self.cols as i128;
        proof {
            assert(0 <= rows <= n + self.cols) by (nonlinear_arith)
                requires
                    rows == (n + self.cols - 1) / self.cols as int,
                    self.cols > 0,
                    n >= 0,
            ;
            assert(0 <= cols * cell_w <= u32::MAX * u32::MAX) by (nonlinear_arith)
                requires
                    0 <= cols <= u32::MAX,
                    0 <= cell_w <= u32::MAX,
            ;
            assert(0 <= rows * cell_h <= 0x1_0000_0000_0000_0000_0000_0000int) by (nonlinear_arith)
                requires
                    0 <= rows <= u64::MAX + u32::MAX,
                    0 <= cell_h <= u32::MAX,
            ;
        }
        assert(-4 <= (cols - 1) * SEPARATOR_PX <= 4 * u32::MAX) by (nonlinear_arith)
            requires
                0 <= cols <= u32::MAX,
                SEPARATOR_PX == 4,
        ;
        assert(-4 <= (rows - 1) * SEPARATOR_PX <= 4 * (u64::MAX + u32::MAX)) by (nonlinear_arith)
            requires
                0 <= rows <= u64::MAX + u32::MAX,
                SEPARATOR_PX == 4,
        ;
        let w: i128 = cols * cell_w as i128 + (cols - 1) * SEPARATOR_PX as i128;
        let h: i128 = rows * cell_h as i128 + (rows - 1) * SEPARATOR_PX as i128;
        if w > u32::MAX as i128 || h > u32::MAX as i128 {
            return false;
        }
        proof {
            assert(-0x4_0000_0000int <= w * h <= u32::MAX * u32::MAX) by (nonlinear_arith)
                requires
                    -4 <= w <= u32::MAX,
                    -4 <= h <= u32::MAX,
            ;
        }
        w * h * 3 <= u32::MAX as i128
    }

    /// Lays the waiting frames out as the next grid and gives its name and
    /// picture. The frames wait on, and the grid does not count, until `written`
    /// says that it is safe.
    pub fn flush(&mut self) -> (r: (String, Frame))
        requires
            old(self).wf(),
            old(self).frames().len() > 0,
            old(self).index() < u32::MAX,
            grid_fits(old(self).frames(), old(self).cols as int),
        ensures
            *final(self) == *old(self),
            final(self).wf(),
            final(self).index() == old(self).index(),
            r.0@ == entry_name((old(self).index() + 1) as nat),
            is_grid(r.1, old(self).frames(), old(self).cols as int),
    {
        let next: u32 = self.strip_index + 1;
        let mut name = text::chars_of("strip_");
        let digits = number::to_decimal(next as u64);
        text::extend(&mut name, number::pad_left(digits.as_slice(), 3, '0').as_slice());
        text::extend(&mut name, text::chars_of(".jpg").as_slice());
        let grid = composite(&self.buffer, self.cols);
        (text::string_of(name.as_slice()), grid)
    }

    /// Counts the grid, once it was written, and forgets its frames.
    pub fn written(&mut self)
        requires
            old(self).wf(),
            old(self).index() < u32::MAX,
        ensures
            final(self).wf(),
            wrote(*old(self), *final(self)),
            final(self).index() == old(self).index() + 1,
    {
        self.strip_index = self.strip_index + 1;
        self.buffer.clear();
    }

    /// Lays out what waits though the grid may not be full; `None` where nothing
    /// waits. Nothing changes until `written` is told.
    pub fn finalize(&mut self) -> (r: Option<(String, Frame)>)
        requires
            old(self).wf(),
            old(self).frames().len() > 0 ==> old(self).index() < u32::MAX && grid_fits(
                old(self).frames(),
                old(self).cols as int,
            ),
        ensures
            *final(self) == *old(self),
            final(self).wf(),
            final(self).index() == old(self).index(),
            finishes(*old(self), r),
    {
        if self.buffer.len() == 0 {
            return None;
        }
        Some(self.flush())
    }
}

/// What finishing a session early hands out: the next grid with all that waits,
/// or nothing where nothing waits.
pub open spec fn finishes(s: AnalysisStrip, r: Option<(String, Frame)>) -> bool {
    match r {
        None => s.frames().len() == 0,
        Some(w) => {
            &&& s.frames().len() > 0
            &&& w.0@ == entry_name((s.index() + 1) as nat)
            &&& is_grid(w.1, s.frames(), s.cols as int)
        },
    }
}

/// What changes once a grid was written: it counts, and nothing waits.
pub open spec fn wrote(before: AnalysisStrip, after: AnalysisStrip) -> bool {
    &&& after.same_session(&before)
    &&& after.frames() == Seq::<Frame>::empty()
    &&& after.taken() == before.taken()
    &&& after.index() == before.index() + 1
}

/// Finishing a session writes what waits once. Where nothing waits, nothing is
/// handed out and nothing changes. Else one grid is handed out under the next
/// number; once it was written it counts, no frame waits, as many frames were
/// taken as before, and finishing again hands out nothing.
pub proof fn law_finishing_writes_once(
    before: AnalysisStrip,
    first: Option<(String, Frame)>,
    after: AnalysisStrip,
    second: Option<(String, Frame)>,
)
    requires
        finishes(before, first),
        first is Some ==> wrote(before, after),
        first is None ==> after == before,
        finishes(after, second),
    ensures
        first is None <==> before.frames().len() == 0,
        first is None ==> after == before,
        first matches Some(w) ==> {
            &&& w.0@ == entry_name((before.index() + 1) as nat)
            &&& is_grid(w.1, before.frames(), before.cols as int)
            &&& after.index() == before.index() + 1
        },
        after.frames().len() == 0,
        after.taken() == before.taken(),
        second is None,
{
}

/// What is inside the black borders of a frame, as packed RGB; `None` where the
/// frame's format cannot be converted.
pub fn content_of(data: &[u8], width: u32, height: u32, pixfmt: u32) -> (r: Option<Frame>)
    requires
        convert::frame_whole(data@.len(), width, height, pixfmt),
    ensures
        r is Some <==> convert::convertible(pixfmt),
        r matches Some(f) ==> f.wf() && is_content_of(f, data@, width, height, pixfmt),
{
    let rgb = match convert::to_rgb(data, width, height, pixfmt) {
        Some(rgb) => rgb,
        None => {
            return None;
        },
    };
    let a = convert::detect_content_bounds(rgb.as_slice(), width, height);
    proof {
        convert::lemma_content_inside(rgb@, width, height, a);
        assert((a.y + a.h) * width <= height * width) by (nonlinear_arith)
            requires
                a.y + a.h <= height,
        ;
        assert(height * width == width * height) by (nonlinear_arith);
    }
    let cut = convert::crop_rgb(rgb.as_slice(), width, a);
    let f = Frame { width: a.w, height: a.h, rgb: cut };
    assert(is_cut(f, rgb@, width, height, a));
    Some(f)
}

/// Whether a frame is the content of a converted picture.
pub open spec fn is_cut(f: Frame, rgb: Seq<u8>, width: u32, height: u32, a: Area) -> bool {
    &&& convert::is_content(rgb, width, height, a)
    &&& f.width == a.w
    &&& f.height == a.h
    &&& convert::is_picture(
        f.rgb@,
        convert::pixels(a.w, a.h),
        |q: int| convert::cropped_pixel(rgb, width, a, q),
    )
}

/// Whether a frame is the content of a captured one.
pub open spec fn is_content_of(
    f: Frame,
    data: Seq<u8>,
    width: u32,
    height: u32,
    pixfmt: u32,
) -> bool {
    exists|rgb: Seq<u8>, a: Area| #[trigger]
        is_cut(f, rgb, width, height, a) && convert::is_picture(
            rgb,
            convert::pixels(width, height),
            |p: int| convert::frame_pixel(data, width, height, pixfmt, p),
        )
}

} // verus!
