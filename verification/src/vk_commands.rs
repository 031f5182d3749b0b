//! The commands that are recorded for frame generation on the Vulkan path.

use vstd::prelude::*;

use crate::framegen;
use crate::framegen::{
    FilterPass, FlowPass, FrameGenQuality, Generation, Motion, Size, SynthPass,
};
use crate::framegen_vk;
use crate::framegen_vk::{ImageRef, MipBlit};

verus! {

/// The layout that an image is in.
#[derive(Clone, Copy, Debug, PartialEq, Eq, Structural)]
pub enum Layout {
    /// Whatever it is: what the image holds is given up.
    Undefined,
    General,
    ShaderRead,
    TransferSrc,
    TransferDst,
}

/// A stage that work runs in.
#[derive(Clone, Copy, Debug, PartialEq, Eq, Structural)]
pub enum Stage {
    Top,
    Transfer,
    Compute,
}

/// How work touches memory.
#[derive(Clone, Copy, Debug, PartialEq, Eq, Structural)]
pub enum Access {
    Nothing,
    TransferRead,
    TransferWrite,
    TransferBoth,
    ShaderRead,
    ShaderWrite,
}

/// What is run.
#[derive(Clone, Copy, Debug, PartialEq, Eq, Structural)]
pub enum Pipeline {
    /// Searches for motion.
    Flow,
    /// Filters what was found.
    Filter,
    /// Warps a frame.
    Synth,
}

/// A change of layout, with what has to be done before and what waits for it.
#[derive(Clone, Copy, Debug, PartialEq, Eq, Structural)]
pub struct Transition {
    pub image: ImageRef,
    pub base: u32,
    pub count: u32,
    pub old: Layout,
    pub new: Layout,
    pub src_stage: Stage,
    pub dst_stage: Stage,
    pub src_access: Access,
    pub dst_access: Access,
}

/// The images that are bound: three to read, one to write.
#[derive(Clone, Copy, Debug, PartialEq, Eq, Structural)]
pub struct Images {
    pub a: ImageRef,
    pub b: ImageRef,
    pub c: ImageRef,
    pub out: ImageRef,
}

/// The constants that are pushed.
#[derive(Clone, Copy, Debug, PartialEq, Eq, Structural)]
pub struct Constants {
    pub w: u32,
    pub h: u32,
    pub x: u32,
    pub y: u32,
    pub z: u32,
}

impl Constants {
    /// The constants as they lie in memory, filled up with a zero.
    pub fn words(&self) -> (r: [u32; 6])
        ensures
            r@ == seq![self.w, self.h, self.x, self.y, self.z, 0u32],
    {
        let r: [u32; 6] = [self.w, self.h, self.x, self.y, self.z, 0];
        assert(r@ =~= seq![self.w, self.h, self.x, self.y, self.z, 0u32]);
        r
    }
}

/// One command.
#[derive(Clone, Copy, Debug, PartialEq, Eq, Structural)]
pub enum Command {
    /// The newest frame becomes the one before it.
    SwapFrames,
    /// What was filtered becomes the motion before.
    SwapMotion,
    Move(Transition),
    /// Copies a level of one image to a level of another, scaled.
    Blit {
        from: ImageRef,
        from_level: u32,
        from_size: Size,
        to: ImageRef,
        to_level: u32,
        to_size: Size,
    },
    /// Chooses what is run, with the set of images and what it holds.
    Bind { pipeline: Pipeline, set: u32, images: Images },
    Push(Constants),
    Run(Size),
    /// What was written is there to read for what follows.
    Wait,
}

/// A change of layout that gives up what the image holds.
pub open spec fn fresh(image: ImageRef, new: Layout, stage: Stage, access: Access) -> Command {
    Command::Move(
        Transition {
            image,
            base: 0,
            count: 1,
            old: Layout::Undefined,
            new,
            src_stage: Stage::Top,
            dst_stage: stage,
            src_access: Access::Nothing,
            dst_access: access,
        },
    )
}

/// A change from written to read between two runs.
pub open spec fn readable(image: ImageRef) -> Command {
    Command::Move(
        Transition {
            image,
            base: 0,
            count: 1,
            old: Layout::General,
            new: Layout::ShaderRead,
            src_stage: Stage::Compute,
            dst_stage: Stage::Compute,
            src_access: Access::ShaderWrite,
            dst_access: Access::ShaderRead,
        },
    )
}

/// An image that can be read and is read again: it keeps what was written to it.
pub open spec fn kept(image: ImageRef) -> Command {
    Command::Move(
        Transition {
            image,
            base: 0,
            count: 1,
            old: Layout::ShaderRead,
            new: Layout::ShaderRead,
            src_stage: Stage::Compute,
            dst_stage: Stage::Compute,
            src_access: Access::ShaderWrite,
            dst_access: Access::ShaderRead,
        },
    )
}

fn to_fresh(image: ImageRef, new: Layout, stage: Stage, access: Access) -> (r: Command)
    ensures
        r == fresh(image, new, stage, access),
{
    Command::Move(
        Transition {
            image,
            base: 0,
            count: 1,
            old: Layout::Undefined,
            new,
            src_stage: Stage::Top,
            dst_stage: stage,
            src_access: Access::Nothing,
            dst_access: access,
        },
    )
}

fn to_readable(image: ImageRef) -> (r: Command)
    ensures
        r == readable(image),
{
    Command::Move(
        Transition {
            image,
            base: 0,
            count: 1,
            old: Layout::General,
            new: Layout::ShaderRead,
            src_stage: Stage::Compute,
            dst_stage: Stage::Compute,
            src_access: Access::ShaderWrite,
            dst_access: Access::ShaderRead,
        },
    )
}

fn to_kept(image: ImageRef) -> (r: Command)
    ensures
        r == kept(image),
{
    Command::Move(
        Transition {
            image,
            base: 0,
            count: 1,
            old: Layout::ShaderRead,
            new: Layout::ShaderRead,
            src_stage: Stage::Compute,
            dst_stage: Stage::Compute,
            src_access: Access::ShaderWrite,
            dst_access: Access::ShaderRead,
        },
    )
}

/// A change of layout of one level of the newest frame between two copies.
pub open spec fn level_move(level: u32, old: Layout, new: Layout, src: Access, dst: Access) -> Command {
    Command::Move(
        Transition {
            image: ImageRef::Curr,
            base: level,
            count: 1,
            old,
            new,
            src_stage: Stage::Transfer,
            dst_stage: Stage::Transfer,
            src_access: src,
            dst_access: dst,
        },
    )
}

/// A level of the newest frame made ready to be read.
pub open spec fn level_ready(level: u32) -> Command {
    Command::Move(
        Transition {
            image: ImageRef::Curr,
            base: level,
            count: 1,
            old: if level < 3 {
                Layout::TransferSrc
            } else {
                Layout::TransferDst
            },
            new: Layout::ShaderRead,
            src_stage: Stage::Transfer,
            dst_stage: Stage::Compute,
            src_access: Access::TransferBoth,
            dst_access: Access::ShaderRead,
        },
    )
}

/// The commands that fill one level from the one before.
pub open spec fn mip_commands(b: MipBlit) -> Seq<Command> {
    seq![
        level_move(
            b.src_level,
            Layout::TransferDst,
            Layout::TransferSrc,
            Access::TransferWrite,
            Access::TransferRead,
        ),
        level_move(
            (b.src_level + 1) as u32,
            Layout::Undefined,
            Layout::TransferDst,
            Access::Nothing,
            Access::TransferWrite,
        ),
        Command::Blit {
            from: ImageRef::Curr,
            from_level: b.src_level,
            from_size: b.src,
            to: ImageRef::Curr,
            to_level: (b.src_level + 1) as u32,
            to_size: b.dst,
        },
    ]
}

/// The commands that fill the levels of the newest frame, and make them ready to
/// be read.
pub open spec fn levels_commands(chain: Seq<MipBlit>) -> Seq<Command> {
    mip_commands(chain[0]) + mip_commands(chain[1]) + mip_commands(chain[2]) + seq![
        level_ready(0),
        level_ready(1),
        level_ready(2),
        level_ready(3),
    ]
}

/// The commands that take a captured frame in.
pub open spec fn push_commands(chain: Seq<MipBlit>, frame: Size, size: Size) -> Seq<Command> {
    seq![
        Command::SwapFrames,
        fresh(ImageRef::Curr, Layout::TransferDst, Stage::Transfer, Access::TransferWrite),
        Command::Blit {
            from: ImageRef::Frame,
            from_level: 0,
            from_size: frame,
            to: ImageRef::Curr,
            to_level: 0,
            to_size: size,
        },
    ] + levels_commands(chain)
}

fn add_mip(out: &mut Vec<Command>, b: MipBlit)
    requires
        b.src_level < 3,
    ensures
        final(out)@ == old(out)@ + mip_commands(b),
{
    let ghost before = out@;
    out.push(
        Command::Move(
            Transition {
                image: ImageRef::Curr,
                base: b.src_level,
                count: 1,
                old: Layout::TransferDst,
                new: Layout::TransferSrc,
                src_stage: Stage::Transfer,
                dst_stage: Stage::Transfer,
                src_access: Access::TransferWrite,
                dst_access: Access::TransferRead,
            },
        ),
    );
    out.push(
        Command::Move(
            Transition {
                image: ImageRef::Curr,
                base: b.src_level + 1,
                count: 1,
                old: Layout::Undefined,
                new: Layout::TransferDst,
                src_stage: Stage::Transfer,
                dst_stage: Stage::Transfer,
                src_access: Access::Nothing,
                dst_access: Access::TransferWrite,
            },
        ),
    );
    out.push(
        Command::Blit {
            from: ImageRef::Curr,
            from_level: b.src_level,
            from_size: b.src,
            to: ImageRef::Curr,
            to_level: b.src_level + 1,
            to_size: b.dst,
        },
    );
    assert(out@ =~= before + mip_commands(b));
}

fn to_level_ready(level: u32) -> (r: Command)
    ensures
        r == level_ready(level),
{
    Command::Move(
        Transition {
            image: ImageRef::Curr,
            base: level,
            count: 1,
            old: if level < 3 {
                Layout::TransferSrc
            } else {
                Layout::TransferDst
            },
            new: Layout::ShaderRead,
            src_stage: Stage::Transfer,
            dst_stage: Stage::Compute,
            src_access: Access::TransferBoth,
            dst_access: Access::ShaderRead,
        },
    )
}

/// Records how the levels of the newest frame are filled.
pub fn record_generate_mipmaps(chain: &[MipBlit]) -> (r: Vec<Command>)
    requires
        chain@.len() == 3,
        forall|i: int| 0 <= i < 3 ==> (#[trigger] chain@[i]).src_level == i,
    ensures
        r@ == levels_commands(chain@),
{
    let mut out: Vec<Command> = Vec::new();
    add_mip(&mut out, chain[0]);
    add_mip(&mut out, chain[1]);
    add_mip(&mut out, chain[2]);
    out.push(to_level_ready(0));
    out.push(to_level_ready(1));
    out.push(to_level_ready(2));
    out.push(to_level_ready(3));
    assert(out@ =~= levels_commands(chain@));
    out
}

/// Records how a captured frame of some size is taken in.
pub fn record_push(frame: Size, size: Size) -> (r: Vec<Command>)
    ensures
        exists|chain: Seq<MipBlit>|
            framegen_vk::is_mip_chain(chain, size.w, size.h) && r@ == #[trigger] push_commands(
                chain,
                frame,
                size,
            ),
{
    let mut out: Vec<Command> = Vec::new();
    out.push(Command::SwapFrames);
    out.push(
        to_fresh(ImageRef::Curr, Layout::TransferDst, Stage::Transfer, Access::TransferWrite),
    );
    out.push(
        Command::Blit {
            from: ImageRef::Frame,
            from_level: 0,
            from_size: frame,
            to: ImageRef::Curr,
            to_level: 0,
            to_size: size,
        },
    );
    let chain = framegen_vk::mip_chain(size.w, size.h);
    let mut rest = record_generate_mipmaps(chain.as_slice());
    out.append(&mut rest);
    assert(out@ =~= push_commands(chain@, frame, size));
    out
}

/// The level that is bound as the hint of a search: the level itself where it has
/// none.
pub open spec fn hint_level(p: FlowPass) -> usize {
    match p.hint {
        Some(h) => h,
        None => p.level,
    }
}

/// The commands of the search on one level.
pub open spec fn flow_commands(p: FlowPass) -> Seq<Command> {
    let hint = match p.hint {
        Some(h) => seq![readable(ImageRef::Mv(h))],
        None => Seq::empty(),
    };
    seq![
        fresh(ImageRef::Mv(p.level), Layout::General, Stage::Compute, Access::ShaderWrite),
    ] + hint + seq![
        Command::Bind {
            pipeline: Pipeline::Flow,
            set: p.level as u32,
            images: Images {
                a: ImageRef::Prev,
                b: ImageRef::Curr,
                c: ImageRef::Mv(hint_level(p)),
                out: ImageRef::Mv(p.level),
            },
        },
        Command::Push(
            Constants {
                w: p.size.w,
                h: p.size.h,
                x: p.radius as u32,
                y: if p.hint is Some {
                    1
                } else {
                    0
                },
                z: p.level as u32,
            },
        ),
        Command::Run(p.groups),
        Command::Wait,
    ]
}

/// The commands of the first searches.
pub open spec fn flows_commands(passes: Seq<FlowPass>, n: int) -> Seq<Command>
    decreases n,
{
    if n <= 0 {
        Seq::empty()
    } else {
        flows_commands(passes, n - 1) + flow_commands(passes[n - 1])
    }
}

/// The commands of the filter. The motion before is kept where it is used to damp
/// with, and given up where there is none yet.
pub open spec fn filter_commands(p: FilterPass) -> Seq<Command> {
    seq![
        readable(ImageRef::Mv(0)),
        if p.has_prev {
            kept(ImageRef::MvPrev)
        } else {
            fresh(ImageRef::MvPrev, Layout::ShaderRead, Stage::Compute, Access::ShaderRead)
        },
        fresh(ImageRef::MvFiltered, Layout::General, Stage::Compute, Access::ShaderWrite),
        Command::Bind {
            pipeline: Pipeline::Filter,
            set: 4,
            images: Images {
                a: ImageRef::Mv(0),
                b: ImageRef::MvPrev,
                c: ImageRef::Mv(0),
                out: ImageRef::MvFiltered,
            },
        },
        Command::Push(
            Constants {
                w: p.size.w,
                h: p.size.h,
                x: if p.has_prev {
                    1
                } else {
                    0
                },
                y: 0,
                z: 0,
            },
        ),
        Command::Run(p.groups),
        Command::Wait,
        Command::SwapMotion,
    ]
}

/// The frame before made ready for the searches.
pub open spec fn prev_ready() -> Command {
    Command::Move(
        Transition {
            image: ImageRef::Prev,
            base: 0,
            count: 4,
            old: Layout::ShaderRead,
            new: Layout::ShaderRead,
            src_stage: Stage::Transfer,
            dst_stage: Stage::Compute,
            src_access: Access::TransferWrite,
            dst_access: Access::ShaderRead,
        },
    )
}

/// The commands of a search for motion.
pub open spec fn motion_commands(m: Motion) -> Seq<Command> {
    seq![prev_ready()] + flows_commands(m.flow@, m.flow@.len() as int) + filter_commands(m.filter)
}

fn add_flow(out: &mut Vec<Command>, p: FlowPass)
    ensures
        final(out)@ == old(out)@ + flow_commands(p),
{
    let ghost before = out@;
    out.push(to_fresh(ImageRef::Mv(p.level), Layout::General, Stage::Compute, Access::ShaderWrite));
    let hint: usize = match p.hint {
        Some(h) => {
            out.push(to_readable(ImageRef::Mv(h)));
            h
        },
        None => p.level,
    };
    out.push(
        Command::Bind {
            pipeline: Pipeline::Flow,
            set: p.level as u32,
            images: Images {
                a: ImageRef::Prev,
                b: ImageRef::Curr,
                c: ImageRef::Mv(hint),
                out: ImageRef::Mv(p.level),
            },
        },
    );
    out.push(
        Command::Push(
            Constants {
                w: p.size.w,
                h: p.size.h,
                x: p.radius as u32,
                y: if p.hint.is_some() {
                    1
                } else {
                    0
                },
                z: p.level as u32,
            },
        ),
    );
    out.push(Command::Run(p.groups));
    out.push(Command::Wait);
    assert(out@ =~= before + flow_commands(p));
}

/// Records a search for motion and its filter.
pub fn record_compute_mvs(m: &Motion) -> (r: Vec<Command>)
    ensures
        r@ == motion_commands(*m),
{
    let mut out: Vec<Command> = Vec::new();
    out.push(
        Command::Move(
            Transition {
                image: ImageRef::Prev,
                base: 0,
                count: 4,
                old: Layout::ShaderRead,
                new: Layout::ShaderRead,
                src_stage: Stage::Transfer,
                dst_stage: Stage::Compute,
                src_access: Access::TransferWrite,
                dst_access: Access::ShaderRead,
            },
        ),
    );
    assert(out@ =~= seq![prev_ready()] + flows_commands(m.flow@, 0));
    let mut i: usize = 0;
    while i < m.flow.len()
        invariant
            i <= m.flow@.len(),
            out@ == seq![prev_ready()] + flows_commands(m.flow@, i as int),
        decreases m.flow@.len() - i,
    {
        add_flow(&mut out, m.flow[i]);
        i += 1;
        assert(out@ =~= seq![prev_ready()] + flows_commands(m.flow@, i as int));
    }
    let ghost before = out@;
    let f = &m.filter;
    out.push(to_readable(ImageRef::Mv(0)));
    out.push(
        if f.has_prev {
            to_kept(ImageRef::MvPrev)
        } else {
            to_fresh(ImageRef::MvPrev, Layout::ShaderRead, Stage::Compute, Access::ShaderRead)
        },
    );
    out.push(to_fresh(ImageRef::MvFiltered, Layout::General, Stage::Compute, Access::ShaderWrite));
    out.push(
        Command::Bind {
            pipeline: Pipeline::Filter,
            set: 4,
            images: Images {
                a: ImageRef::Mv(0),
                b: ImageRef::MvPrev,
                c: ImageRef::Mv(0),
                out: ImageRef::MvFiltered,
            },
        },
    );
    out.push(
        Command::Push(
            Constants {
                w: f.size.w,
                h: f.size.h,
                x: if f.has_prev {
                    1
                } else {
                    0
                },
                y: 0,
                z: 0,
            },
        ),
    );
    out.push(Command::Run(f.groups));
    out.push(Command::Wait);
    out.push(Command::SwapMotion);
    assert(out@ =~= before + filter_commands(m.filter));
    out
}

/// The commands of a warp. `t_bits` are the bits of the time between the frames,
/// `searched` tells whether the motion was found just before; else it is the one
/// that an earlier frame of the pair was warped with. Without a warp the images
/// are bound and nothing is run.
pub open spec fn synth_commands(p: Option<SynthPass>, t_bits: u32, searched: bool) -> Seq<Command> {
    let bound = seq![
        if searched {
            readable(ImageRef::MvPrev)
        } else {
            kept(ImageRef::MvPrev)
        },
        fresh(ImageRef::Out, Layout::General, Stage::Compute, Access::ShaderWrite),
        Command::Bind {
            pipeline: Pipeline::Synth,
            set: 5,
            images: Images {
                a: ImageRef::Prev,
                b: ImageRef::Curr,
                c: ImageRef::MvPrev,
                out: ImageRef::Out,
            },
        },
    ];
    match p {
        Some(s) => bound.push(
            Command::Push(
                Constants { w: s.size.w, h: s.size.h, x: t_bits, y: s.mode, z: 0 },
            ),
        ).push(Command::Run(s.groups)),
        None => bound,
    }
}

/// Records a warp.
pub fn record_synthesis(p: Option<SynthPass>, t_bits: u32, searched: bool) -> (r: Vec<Command>)
    ensures
        r@ == synth_commands(p, t_bits, searched),
{
    let mut out: Vec<Command> = Vec::new();
    out.push(
        if searched {
            to_readable(ImageRef::MvPrev)
        } else {
            to_kept(ImageRef::MvPrev)
        },
    );
    out.push(to_fresh(ImageRef::Out, Layout::General, Stage::Compute, Access::ShaderWrite));
    out.push(
        Command::Bind {
            pipeline: Pipeline::Synth,
            set: 5,
            images: Images {
                a: ImageRef::Prev,
                b: ImageRef::Curr,
                c: ImageRef::MvPrev,
                out: ImageRef::Out,
            },
        },
    );
    if let Some(s) = p {
        out.push(
            Command::Push(
                Constants { w: s.size.w, h: s.size.h, x: t_bits, y: s.mode, z: 0 },
            ),
        );
        out.push(Command::Run(s.groups));
    }
    assert(out@ =~= synth_commands(p, t_bits, searched));
    out
}

/// The commands of a generated frame: the search for motion where one is due,
/// then the warp.
pub open spec fn generation_commands(g: Generation, t_bits: u32) -> Seq<Command> {
    match g.motion {
        Some(m) => motion_commands(m) + synth_commands(g.synth, t_bits, true),
        None => synth_commands(g.synth, t_bits, false),
    }
}

/// Records a generated frame.
pub fn record_generation(g: &Generation, t_bits: u32) -> (r: Vec<Command>)
    ensures
        r@ == generation_commands(*g, t_bits),
{
    let mut warp = record_synthesis(g.synth, t_bits, g.motion.is_some());
    match &g.motion {
        Some(m) => {
            let mut out = record_compute_mvs(m);
            out.append(&mut warp);
            out
        },
        None => warp,
    }
}

/// The layouts of all images, what is bound and pushed, and whether the images of
/// filtered motion hold what was written to them.
pub struct Layouts {
    pub prev: Seq<Layout>,
    pub curr: Seq<Layout>,
    pub mv: Seq<Layout>,
    pub filtered: Layout,
    pub mv_prev: Layout,
    pub out: Layout,
    pub bound: Option<(Pipeline, Images)>,
    pub pushed: Option<Constants>,
    pub filtered_held: bool,
    pub held: bool,
}

impl Layouts {
    /// Four levels of each frame and of the motion.
    pub open spec fn wf(self) -> bool {
        self.prev.len() == 4 && self.curr.len() == 4 && self.mv.len() == 4
    }

    /// The layout of a level of an image.
    pub open spec fn of(self, image: ImageRef, level: int) -> Layout {
        match image {
            ImageRef::Prev => self.prev[level],
            ImageRef::Curr => self.curr[level],
            ImageRef::Mv(l) => self.mv[l as int],
            ImageRef::MvFiltered => self.filtered,
            ImageRef::MvPrev => self.mv_prev,
            ImageRef::Out => self.out,
            ImageRef::Frame => Layout::TransferSrc,
        }
    }

    /// The layouts once one level of an image has another.
    pub open spec fn with(self, image: ImageRef, level: int, l: Layout) -> Layouts {
        match image {
            ImageRef::Prev => Layouts { prev: self.prev.update(level, l), ..self },
            ImageRef::Curr => Layouts { curr: self.curr.update(level, l), ..self },
            ImageRef::Mv(m) => Layouts { mv: self.mv.update(m as int, l), ..self },
            ImageRef::MvFiltered => Layouts { filtered: l, ..self },
            ImageRef::MvPrev => Layouts { mv_prev: l, ..self },
            ImageRef::Out => Layouts { out: l, ..self },
            ImageRef::Frame => self,
        }
    }

    /// Whether an image holds what was written to it.
    pub open spec fn holds(self, image: ImageRef) -> bool {
        match image {
            ImageRef::MvPrev => self.held,
            ImageRef::MvFiltered => self.filtered_held,
            _ => true,
        }
    }

    /// Once what an image holds was given up.
    pub open spec fn without(self, image: ImageRef) -> Layouts {
        match image {
            ImageRef::MvPrev => Layouts { held: false, ..self },
            ImageRef::MvFiltered => Layouts { filtered_held: false, ..self },
            _ => self,
        }
    }

    /// Once what is bound was run.
    pub open spec fn ran(self) -> Layouts {
        match self.bound {
            Some((Pipeline::Filter, i)) => if i.out == ImageRef::MvFiltered {
                Layouts { filtered_held: true, ..self }
            } else {
                self
            },
            _ => self,
        }
    }

    /// Whether both frames can be read on all levels.
    pub open spec fn frames_ready(self) -> bool {
        &&& self.wf()
        &&& forall|i: int| 0 <= i < 4 ==> (#[trigger] self.prev[i]) == Layout::ShaderRead
        &&& forall|i: int| 0 <= i < 4 ==> (#[trigger] self.curr[i]) == Layout::ShaderRead
    }

    /// Whether what is bound is in the layouts that a run needs, the frames and the
    /// motion that is read ready to be read, what is written to be written; and
    /// whether the filtered motion that a run uses was not given up.
    pub open spec fn can_run(self) -> bool {
        match self.bound {
            None => false,
            Some((Pipeline::Flow, i)) => self.frames_ready() && self.of(i.out, 0)
                == Layout::General && (i.c != i.out ==> self.of(i.c, 0) == Layout::ShaderRead),
            Some((Pipeline::Filter, i)) => self.of(i.a, 0) == Layout::ShaderRead && self.of(i.b, 0)
                == Layout::ShaderRead && self.of(i.out, 0) == Layout::General && (self.pushed matches Some(
                c,
            ) && (c.x == 1 ==> self.holds(i.b))),
            Some((Pipeline::Synth, i)) => self.frames_ready() && self.of(i.c, 0)
                == Layout::ShaderRead && self.of(i.out, 0) == Layout::General && self.holds(i.c),
        }
    }
}

/// The layouts after a command; `None` where an image is not in the layout that
/// the command needs.
pub open spec fn step(l: Layouts, c: Command) -> Option<Layouts> {
    match c {
        Command::SwapFrames => Some(Layouts { prev: l.curr, curr: l.prev, ..l }),
        Command::SwapMotion => Some(
            Layouts {
                filtered: l.mv_prev,
                mv_prev: l.filtered,
                filtered_held: l.held,
                held: l.filtered_held,
                ..l
            },
        ),
        Command::Move(t) => if t.count == 1 {
            if t.old == Layout::Undefined {
                Some(l.with(t.image, t.base as int, t.new).without(t.image))
            } else if l.of(t.image, t.base as int) == t.old {
                Some(l.with(t.image, t.base as int, t.new))
            } else {
                None
            }
        } else if t.image == ImageRef::Prev && t.new == t.old && (forall|i: int|
            0 <= i < 4 ==> (#[trigger] l.prev[i]) == t.old) {
            Some(l)
        } else {
            None
        },
        Command::Blit { from, from_level, to, to_level, .. } => if l.of(from, from_level as int)
            == Layout::TransferSrc && l.of(to, to_level as int) == Layout::TransferDst {
            Some(l)
        } else {
            None
        },
        Command::Bind { pipeline, images, .. } => Some(
            Layouts { bound: Some((pipeline, images)), ..l },
        ),
        Command::Run(_) => if l.can_run() {
            Some(l.ran())
        } else {
            None
        },
        Command::Push(c) => Some(Layouts { pushed: Some(c), ..l }),
        Command::Wait => Some(l),
    }
}

/// The layouts after the commands from a place on.
pub open spec fn after(l: Layouts, cs: Seq<Command>, i: int) -> Option<Layouts>
    decreases cs.len() - i,
{
    if i < 0 || i >= cs.len() {
        Some(l)
    } else {
        match step(l, cs[i]) {
            Some(m) => after(m, cs, i + 1),
            None => None,
        }
    }
}

proof fn lemma_after_tail(l: Layouts, a: Seq<Command>, b: Seq<Command>, i: int)
    requires
        0 <= i <= b.len(),
    ensures
        after(l, a + b, a.len() + i) == after(l, b, i),
    decreases b.len() - i,
{
    if i < b.len() {
        assert((a + b)[a.len() + i] == b[i]);
        if let Some(m) = step(l, b[i]) {
            lemma_after_tail(m, a, b, i + 1);
        }
    }
}

proof fn lemma_after_head(l: Layouts, a: Seq<Command>, b: Seq<Command>, i: int)
    requires
        0 <= i <= a.len(),
    ensures
        after(l, a + b, i) == (match after(l, a, i) {
            Some(m) => after(m, b, 0),
            None => None,
        }),
    decreases a.len() - i,
{
    if i < a.len() {
        assert((a + b)[i] == a[i]);
        if let Some(m) = step(l, a[i]) {
            lemma_after_head(m, a, b, i + 1);
        }
    } else {
        lemma_after_tail(l, a, b, 0);
    }
}

/// Whether commands can be run one after the other from some layouts: each finds
/// the images that it touches in the layouts that it needs.
pub open spec fn valid(l: Layouts, cs: Seq<Command>) -> bool {
    after(l, cs, 0) is Some
}

proof fn lemma_mip(l: Layouts, b: MipBlit)
    requires
        l.wf(),
        b.src_level < 3,
        l.curr[b.src_level as int] == Layout::TransferDst,
    ensures
        after(l, mip_commands(b), 0) == Some(
            Layouts {
                curr: l.curr.update(b.src_level as int, Layout::TransferSrc).update(
                    b.src_level + 1,
                    Layout::TransferDst,
                ),
                ..l
            },
        ),
{
    let cs = mip_commands(b);
    assert(cs.len() == 3);
    reveal_with_fuel(after, 4);
}

proof fn lemma_ready(l: Layouts)
    requires
        l.wf(),
        l.curr[0] == Layout::TransferSrc,
        l.curr[1] == Layout::TransferSrc,
        l.curr[2] == Layout::TransferSrc,
        l.curr[3] == Layout::TransferDst,
    ensures
        ({
            let cs = seq![level_ready(0), level_ready(1), level_ready(2), level_ready(3)];
            after(l, cs, 0) matches Some(m) && m.wf() && m == (Layouts { curr: m.curr, ..l }) && forall|
                i: int,
            |
                0 <= i < 4 ==> (#[trigger] m.curr[i]) == Layout::ShaderRead
        }),
{
    reveal_with_fuel(after, 5);
}

/// From whatever layouts, a captured frame can be taken in; then it can be read
/// on all levels, and the one before and the motion are as they were.
pub proof fn law_push_is_valid(l: Layouts, chain: Seq<MipBlit>, frame: Size, size: Size)
    requires
        l.wf(),
        framegen_vk::is_mip_chain(chain, size.w, size.h),
    ensures
        valid(l, push_commands(chain, frame, size)),
        after(l, push_commands(chain, frame, size), 0) matches Some(m) && m.wf() && m.prev
            == l.curr && m.mv_prev == l.mv_prev && m.held == l.held && forall|i: int|
            0 <= i < 4 ==> (#[trigger] m.curr[i]) == Layout::ShaderRead,
{
    let head = seq![
        Command::SwapFrames,
        fresh(ImageRef::Curr, Layout::TransferDst, Stage::Transfer, Access::TransferWrite),
        Command::Blit {
            from: ImageRef::Frame,
            from_level: 0,
            from_size: frame,
            to: ImageRef::Curr,
            to_level: 0,
            to_size: size,
        },
    ];
    let ready = seq![level_ready(0), level_ready(1), level_ready(2), level_ready(3)];
    let a = mip_commands(chain[0]);
    let b = mip_commands(chain[1]);
    let c = mip_commands(chain[2]);
    assert(chain[0].src_level == 0 && chain[1].src_level == 1 && chain[2].src_level == 2);
    lemma_after_head(l, head, levels_commands(chain), 0);
    assert(after(l, head, 0) is Some) by {
        reveal_with_fuel(after, 4);
    }
    let l1 = after(l, head, 0)->0;
    assert(l1.wf() && l1.prev == l.curr && l1.curr[0] == Layout::TransferDst && l1.mv_prev
        == l.mv_prev && l1.held == l.held) by {
        reveal_with_fuel(after, 4);
    }
    assert(levels_commands(chain) == a + b + c + ready);
    lemma_after_head(l1, a + b + c, ready, 0);
    lemma_after_head(l1, a + b, c, 0);
    lemma_after_head(l1, a, b, 0);
    lemma_mip(l1, chain[0]);
    let l2 = after(l1, a, 0)->0;
    lemma_mip(l2, chain[1]);
    let l3 = after(l2, b, 0)->0;
    lemma_mip(l3, chain[2]);
    let l4 = after(l3, c, 0)->0;
    lemma_ready(l4);
}

/// What holds of the layouts between the searches of a frame.
pub open spec fn between_searches(l: Layouts, level: int) -> bool {
    l.frames_ready() && 0 <= level < 4 && l.mv[level] == Layout::General
}

/// Whether the motion before is there to be read, where there is one.
pub open spec fn motion_ready(l: Layouts, has_prev: bool) -> bool {
    has_prev ==> l.mv_prev == Layout::ShaderRead && l.held
}

proof fn lemma_flow(l: Layouts, p: FlowPass)
    requires
        l.frames_ready(),
        p.level < 4,
        p.hint matches Some(h) ==> h == p.level + 1 && h < 4 && l.mv[h as int] == Layout::General,
    ensures
        after(l, flow_commands(p), 0) matches Some(m) && between_searches(m, p.level as int)
            && m.mv_prev == l.mv_prev && m.held == l.held,
{
    let cs = flow_commands(p);
    match p.hint {
        Some(h) => {
            assert(cs.len() == 6);
            assert(cs[0] == fresh(
                ImageRef::Mv(p.level),
                Layout::General,
                Stage::Compute,
                Access::ShaderWrite,
            ));
            assert(cs[1] == readable(ImageRef::Mv(h)));
            assert(cs[5] == Command::Wait);
            reveal_with_fuel(after, 7);
        },
        None => {
            assert(cs.len() == 5);
            assert(cs[4] == Command::Wait);
            reveal_with_fuel(after, 6);
        },
    }
}

proof fn lemma_flows(
    l: Layouts,
    passes: Seq<FlowPass>,
    q: FrameGenQuality,
    dims: Seq<Size>,
    n: int,
)
    requires
        l.frames_ready(),
        framegen::is_flow(passes, q, dims),
        1 <= n <= passes.len(),
    ensures
        after(l, flows_commands(passes, n), 0) matches Some(m) && between_searches(
            m,
            q.depth() - n,
        ) && m.mv_prev == l.mv_prev && m.held == l.held,
    decreases n,
{
    let p = passes[n - 1];
    assert(p == framegen::flow_pass(q, dims[q.depth() - n], q.depth() - n));
    lemma_after_head(l, flows_commands(passes, n - 1), flow_commands(p), 0);
    if n > 1 {
        lemma_flows(l, passes, q, dims, n - 1);
        lemma_flow(after(l, flows_commands(passes, n - 1), 0)->0, p);
    } else {
        assert(flows_commands(passes, 0) =~= Seq::<Command>::empty());
        lemma_flow(l, p);
    }
}

proof fn lemma_filter(l: Layouts, p: FilterPass)
    requires
        between_searches(l, 0),
        motion_ready(l, p.has_prev),
    ensures
        after(l, filter_commands(p), 0) matches Some(s) && s.frames_ready() && s.mv_prev
            == Layout::General && s.held,
{
    let cs = filter_commands(p);
    assert(cs.len() == 8);
    let l1 = l.with(ImageRef::Mv(0), 0, Layout::ShaderRead);
    assert(step(l, cs[0]) == Some(l1));
    let l2 = Layouts { mv_prev: Layout::ShaderRead, held: l.held && p.has_prev, ..l1 };
    assert(step(l1, cs[1]) == Some(l2));
    let l3 = Layouts { filtered: Layout::General, filtered_held: false, ..l2 };
    assert(step(l2, cs[2]) == Some(l3));
    let images = Images {
        a: ImageRef::Mv(0),
        b: ImageRef::MvPrev,
        c: ImageRef::Mv(0),
        out: ImageRef::MvFiltered,
    };
    let l4 = Layouts { bound: Some((Pipeline::Filter, images)), ..l3 };
    assert(step(l3, cs[3]) == Some(l4));
    let l5 = step(l4, cs[4])->0;
    assert(l5 == (Layouts { pushed: l5.pushed, ..l4 }));
    assert(l5.can_run());
    let l6 = Layouts { filtered_held: true, ..l5 };
    assert(step(l5, cs[5]) == Some(l6));
    assert(step(l6, cs[6]) == Some(l6));
    let l7 = step(l6, cs[7])->0;
    assert(after(l7, cs, 8) == Some(l7));
    assert(after(l6, cs, 7) == Some(l7));
    assert(after(l6, cs, 6) == Some(l7));
    assert(after(l5, cs, 5) == Some(l7));
    assert(after(l4, cs, 4) == Some(l7));
    assert(after(l3, cs, 3) == Some(l7));
    assert(after(l2, cs, 2) == Some(l7));
    assert(after(l1, cs, 1) == Some(l7));
    assert(after(l, cs, 0) == Some(l7));
}

/// Where both frames can be read, and the motion before where there is one, motion
/// can be searched for, with whatever quality; then it is there for a warp.
pub proof fn law_motion_is_valid(
    l: Layouts,
    m: Motion,
    q: FrameGenQuality,
    size: Size,
    has_prev: bool,
)
    requires
        l.frames_ready(),
        motion_ready(l, has_prev),
        framegen::is_motion(m, q, size, has_prev),
    ensures
        valid(l, motion_commands(m)),
        after(l, motion_commands(m), 0) matches Some(s) && s.frames_ready() && s.mv_prev
            == Layout::General && s.held,
{
    let n = m.flow@.len() as int;
    let head = seq![prev_ready()];
    let flows = flows_commands(m.flow@, n);
    let filter = filter_commands(m.filter);
    lemma_after_head(l, head + flows, filter, 0);
    lemma_after_head(l, head, flows, 0);
    assert(after(l, head, 0) == Some(l)) by {
        reveal_with_fuel(after, 2);
    }
    let dims = choose|dims: Seq<Size>|
        framegen::is_pyramid(dims, size.w, size.h) && framegen::is_flow(m.flow@, q, dims);
    lemma_flows(l, m.flow@, q, dims, n);
    let s = after(l, flows, 0)->0;
    assert(m.filter.has_prev == has_prev);
    lemma_filter(s, m.filter);
}

/// A frame can be warped with motion that was just found, and again with the same
/// motion; it stays there to be read.
pub proof fn law_warp_is_valid(l: Layouts, p: Option<SynthPass>, t_bits: u32, searched: bool)
    requires
        l.frames_ready(),
        l.held,
        l.mv_prev == (if searched {
            Layout::General
        } else {
            Layout::ShaderRead
        }),
    ensures
        valid(l, synth_commands(p, t_bits, searched)),
        after(l, synth_commands(p, t_bits, searched), 0) matches Some(s) && s.frames_ready()
            && motion_ready(s, true) && s.out == Layout::General,
{
    let cs = synth_commands(p, t_bits, searched);
    assert(cs.len() == if p is Some {
        5int
    } else {
        3
    });
    reveal_with_fuel(after, 6);
}

/// Whether a generated frame is the next one of a state: motion is searched for
/// where that of the pair was not found yet.
pub open spec fn is_next(
    g: Generation,
    q: FrameGenQuality,
    size: Size,
    has_prev: bool,
    mv_valid: bool,
) -> bool {
    &&& g.motion is Some <==> !mv_valid
    &&& g.motion matches Some(m) ==> framegen::is_motion(m, q, size, has_prev)
}

/// Where both frames can be read, and the motion before where there is one, a
/// generated frame can be recorded, the first of its pair or a later one; then the
/// same holds again, with the motion that it was warped with, and the frame is
/// where it can be copied from.
pub proof fn law_generated_frame_is_valid(
    l: Layouts,
    g: Generation,
    q: FrameGenQuality,
    size: Size,
    has_prev: bool,
    mv_valid: bool,
    t_bits: u32,
)
    requires
        l.frames_ready(),
        motion_ready(l, has_prev),
        mv_valid ==> has_prev,
        is_next(g, q, size, has_prev, mv_valid),
    ensures
        valid(l, generation_commands(g, t_bits)),
        after(l, generation_commands(g, t_bits), 0) matches Some(s) && s.frames_ready()
            && motion_ready(s, true) && s.out == Layout::General,
{
    match g.motion {
        Some(m) => {
            law_motion_is_valid(l, m, q, size, has_prev);
            let found = after(l, motion_commands(m), 0)->0;
            lemma_after_head(l, motion_commands(m), synth_commands(g.synth, t_bits, true), 0);
            law_warp_is_valid(found, g.synth, t_bits, true);
        },
        None => {
            law_warp_is_valid(l, g.synth, t_bits, false);
        },
    }
}

/// The commands of the first generated frames of a pair.
pub open spec fn pair_commands(gs: Seq<(Generation, u32)>, n: int) -> Seq<Command>
    decreases n,
{
    if n <= 0 {
        Seq::empty()
    } else {
        pair_commands(gs, n - 1) + generation_commands(gs[n - 1].0, gs[n - 1].1)
    }
}

/// Every generated frame of a pair can be recorded, however many there are: motion
/// is searched for by the first and used by all.
pub proof fn law_frames_of_a_pair_are_valid(
    l: Layouts,
    gs: Seq<(Generation, u32)>,
    q: FrameGenQuality,
    size: Size,
    has_prev: bool,
    n: int,
)
    requires
        l.frames_ready(),
        motion_ready(l, has_prev),
        0 <= n <= gs.len(),
        forall|i: int|
            0 <= i < gs.len() ==> is_next(
                (#[trigger] gs[i]).0,
                q,
                size,
                has_prev || i > 0,
                i > 0,
            ),
    ensures
        valid(l, pair_commands(gs, n)),
        after(l, pair_commands(gs, n), 0) matches Some(s) && s.frames_ready() && motion_ready(
            s,
            has_prev || n > 0,
        ),
    decreases n,
{
    if n > 0 {
        law_frames_of_a_pair_are_valid(l, gs, q, size, has_prev, n - 1);
        let g = gs[n - 1];
        let before = pair_commands(gs, n - 1);
        lemma_after_head(l, before, generation_commands(g.0, g.1), 0);
        law_generated_frame_is_valid(
            after(l, before, 0)->0,
            g.0,
            q,
            size,
            has_prev || n > 1,
            n > 1,
            g.1,
        );
    }
}

/// Once two captured frames were taken in, every generated frame of the pair can be
/// recorded: the first pair in whatever layouts the images were before, a later one
/// where the motion before is there to be read.
pub proof fn law_captured_pairs_are_valid(
    l: Layouts,
    chain: Seq<MipBlit>,
    first: Size,
    second: Size,
    size: Size,
    gs: Seq<(Generation, u32)>,
    q: FrameGenQuality,
    has_prev: bool,
)
    requires
        l.wf(),
        motion_ready(l, has_prev),
        framegen_vk::is_mip_chain(chain, size.w, size.h),
        forall|i: int|
            0 <= i < gs.len() ==> is_next(
                (#[trigger] gs[i]).0,
                q,
                size,
                has_prev || i > 0,
                i > 0,
            ),
    ensures
        valid(
            l,
            push_commands(chain, first, size) + push_commands(chain, second, size) + pair_commands(
                gs,
                gs.len() as int,
            ),
        ),
{
    let a = push_commands(chain, first, size);
    let b = push_commands(chain, second, size);
    let c = pair_commands(gs, gs.len() as int);
    law_push_is_valid(l, chain, first, size);
    let l1 = after(l, a, 0)->0;
    law_push_is_valid(l1, chain, second, size);
    let l2 = after(l1, b, 0)->0;
    lemma_after_head(l, a, b, 0);
    lemma_after_head(l, a + b, c, 0);
    law_frames_of_a_pair_are_valid(l2, gs, q, size, has_prev, gs.len() as int);
}

} // verus!
