//! What the start promises: the command line goes before the file, names of frame
//! generation mean what they say, and commands to the graphics card carry what the
//! shaders read.

use vstd::prelude::*;

use crate::config::ConfigView;
use crate::framegen::{FilterPass, FlowPass, FrameGenMode, FrameGenQuality, SynthPass};
use crate::framegen_vk::ImageRef;
use crate::net;
use crate::number;
use crate::startup::{self, Overrides};
use crate::vk_commands::{self, Command, Constants, Images, Pipeline};

verus! {

/// What the command line gives replaces what the file gave, each for itself, and
/// what it does not give stays.
pub proof fn law_command_line_goes_first(c: ConfigView, o: Overrides)
    ensures
        ({
            let r = startup::overridden(c, o);
            &&& o.device is Some ==> r.device == o.device->0@
            &&& o.device is None ==> r.device == c.device
            &&& o.width is Some ==> r.width == o.width->0
            &&& o.width is None ==> r.width == c.width
            &&& o.height is Some ==> r.height == o.height->0
            &&& o.height is None ==> r.height == c.height
            &&& o.fps is Some ==> r.fps == o.fps->0
            &&& o.fps is None ==> r.fps == c.fps
            &&& r == (ConfigView {
                device: r.device,
                width: r.width,
                height: r.height,
                fps: r.fps,
                ..c
            })
        }),
{
}

/// The names of the modes and qualities of frame generation; others are off, and
/// balanced.
pub proof fn law_framegen_names(s: Seq<char>, rife: bool)
    ensures
        startup::framegen_mode_named("extrapolate"@, rife) == FrameGenMode::Extrapolate,
        startup::framegen_mode_named("interpolate"@, rife) == FrameGenMode::Interpolate,
        startup::framegen_mode_named("rife"@, true) == FrameGenMode::Rife,
        startup::framegen_mode_named("rife"@, false) == FrameGenMode::Off,
        s != "extrapolate"@ && s != "interpolate"@ && s != "rife"@ ==> startup::framegen_mode_named(
            s,
            rife,
        ) == FrameGenMode::Off,
        startup::framegen_quality_named("fast"@) == FrameGenQuality::Fast,
        startup::framegen_quality_named("quality"@) == FrameGenQuality::Quality,
        s != "fast"@ && s != "quality"@ ==> startup::framegen_quality_named(s)
            == FrameGenQuality::Balanced,
{
    startup::law_framegen_names_read_back(FrameGenMode::Extrapolate, FrameGenQuality::Fast, rife);
    startup::law_framegen_names_read_back(FrameGenMode::Interpolate, FrameGenQuality::Quality, rife);
    reveal_strlit("rife");
    reveal_strlit("extrapolate");
    reveal_strlit("interpolate");
    reveal_strlit("fast");
    reveal_strlit("quality");
    assert("rife"@.len() == 4 && "extrapolate"@.len() == 11 && "interpolate"@.len() == 11);
    assert("extrapolate"@[0] == 'e' && "interpolate"@[0] == 'i');
    assert("fast"@.len() == 4 && "quality"@.len() == 7);
}

/// The server binds to the address that is asked for where that names a port, else
/// to the port of the settings on every interface.
pub proof fn law_bind_address(a: Seq<char>, port: u16)
    ensures
        a.contains(':') ==> startup::bind_text(Some(a), port) == a,
        !a.contains(':') ==> startup::bind_text(Some(a), port) == startup::bind_text(None, port),
        startup::bind_text(None, port) == "0.0.0.0:"@ + number::decimal(port as nat),
{
}

/// A size is shown as the width, an `x` and the height.
pub proof fn law_size_text(w: u32, h: u32)
    ensures
        startup::size_text(w, h) == number::decimal(w as nat) + seq!['x'] + number::decimal(h as nat),
{
    reveal_strlit("x");
    assert("x"@ =~= seq!['x']);
}

/// What streams keep to: a packet with its header, and what the network adds before
/// it, fits a frame of 1500 bytes; the port is 9000; and a frame has at most 256
/// fragments.
pub proof fn law_stream_limits()
    ensures
        net::HEADER_SIZE == 20,
        net::MAX_PAYLOAD == 1400,
        net::HEADER_SIZE + net::MAX_PAYLOAD + 28 <= 1500,
        net::DEFAULT_PORT == 9000,
        net::MAX_FRAGMENT_COUNT == 256,
{
}

/// A warp reads the older frame, the newer one and the motion, in this order, and
/// writes the generated one; it is told the size, the time between the frames and
/// the shader's mode, and runs the planned groups. Without a warp nothing runs.
pub proof fn law_warp_commands(s: SynthPass, t_bits: u32, searched: bool)
    ensures
        ({
            let c = vk_commands::synth_commands(Some(s), t_bits, searched);
            &&& c.len() == 5
            &&& c[2] == (Command::Bind {
                pipeline: Pipeline::Synth,
                set: 5,
                images: Images {
                    a: ImageRef::Prev,
                    b: ImageRef::Curr,
                    c: ImageRef::MvPrev,
                    out: ImageRef::Out,
                },
            })
            &&& c[3] == Command::Push(
                Constants { w: s.size.w, h: s.size.h, x: t_bits, y: s.mode, z: 0 },
            )
            &&& c[4] == Command::Run(s.groups)
        }),
        forall|i: int|
            0 <= i < vk_commands::synth_commands(None, t_bits, searched).len() ==> !(
            #[trigger] vk_commands::synth_commands(None, t_bits, searched)[i] is Run),
{
}

/// A search reads the older frame, the newer one and the motion of the coarser level,
/// or its own where there is none, and writes that of its own level; it is told the
/// size, the radius, whether there is a coarser level, and the level.
pub proof fn law_search_commands(p: FlowPass)
    ensures
        ({
            let c = vk_commands::flow_commands(p);
            let n = c.len() as int;
            &&& n == (if p.hint is Some {
                6int
            } else {
                5
            })
            &&& c[n - 1] == Command::Wait
            &&& c[n - 2] == Command::Run(p.groups)
            &&& c[n - 3] == Command::Push(
                Constants {
                    w: p.size.w,
                    h: p.size.h,
                    x: p.radius as u32,
                    y: if p.hint is Some {
                        1
                    } else {
                        0
                    },
                    z: p.level as u32,
                },
            )
            &&& c[n - 4] == (Command::Bind {
                pipeline: Pipeline::Flow,
                set: p.level as u32,
                images: Images {
                    a: ImageRef::Prev,
                    b: ImageRef::Curr,
                    c: ImageRef::Mv(
                        match p.hint {
                            Some(h) => h,
                            None => p.level,
                        },
                    ),
                    out: ImageRef::Mv(p.level),
                },
            })
        }),
{
}

/// The filter reads the finest motion and that of the pair before, and writes the
/// filtered one, which then takes the place of the one before; it is told the size
/// and whether there is a field before.
pub proof fn law_filter_commands(p: FilterPass)
    ensures
        ({
            let c = vk_commands::filter_commands(p);
            &&& c.len() == 8
            &&& c[3] == (Command::Bind {
                pipeline: Pipeline::Filter,
                set: 4,
                images: Images {
                    a: ImageRef::Mv(0),
                    b: ImageRef::MvPrev,
                    c: ImageRef::Mv(0),
                    out: ImageRef::MvFiltered,
                },
            })
            &&& c[4] == Command::Push(
                Constants {
                    w: p.size.w,
                    h: p.size.h,
                    x: if p.has_prev {
                        1
                    } else {
                        0
                    },
                    y: 0,
                    z: 0,
                },
            )
            &&& c[5] == Command::Run(p.groups)
            &&& c[7] == Command::SwapMotion
        }),
{
}

} // verus!
