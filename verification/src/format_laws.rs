//! What the names of pixel formats promise: each stands for the code of its own
//! letters, the line at the start shows that code as the name, and the
//! configuration file and the command line understand names alike.

use vstd::prelude::*;

use crate::capture;
use crate::config;
use crate::startup::{self, FormatError, TextureFormat};
use crate::text;

verus! {

/// A text with its ASCII letters in upper case.
pub open spec fn upper(s: Seq<char>) -> Seq<char> {
    s.map_values(
        |c: char|
            if 'a' <= c && c <= 'z' {
                (c as u32 - 32) as char
            } else {
                c
            },
    )
}

/// Whether four bytes are the characters of a text.
pub open spec fn spelled(b: Seq<u8>, s: Seq<char>) -> bool {
    &&& b.len() == 4
    &&& s.len() == 4
    &&& b[0] == s[0] as u32
    &&& b[1] == s[1] as u32
    &&& b[2] == s[2] as u32
    &&& b[3] == s[3] as u32
}

/// The bytes of a code are its digits to the base 256, the last digit first.
pub proof fn law_code_bytes(v: u32)
    ensures
        ({
            let b = capture::le_bytes(v);
            &&& b.len() == 4
            &&& b[0] + 256 * b[1] + 65536 * b[2] + 16777216 * b[3] == v
        }),
{
}

/// The format that a name of four letters stands for has the code that these
/// letters in upper case make.
pub proof fn law_format_code_spells_its_name(name: Seq<char>)
    requires
        name == "nv12"@ || name == "yuyv"@ || name == "uyvy"@ || name == "p010"@ || name == "mjpg"@,
    ensures
        spelled(capture::le_bytes(config::pixfmt_of(name)), upper(name)),
{
    lemma_names();
}

/// Formats of other names: YUY2 is YUYV, MJPEG is MJPG, and the three names of
/// 32-bit pixels are one format, whose code reads XB24.
pub proof fn law_format_aliases()
    ensures
        config::pixfmt_of("yuy2"@) == config::pixfmt_of("yuyv"@),
        config::pixfmt_of("mjpeg"@) == config::pixfmt_of("mjpg"@),
        config::pixfmt_of("rgbx"@) == config::pixfmt_of("xrgb"@),
        config::pixfmt_of("bgrx"@) == config::pixfmt_of("xrgb"@),
        spelled(capture::le_bytes(config::pixfmt_of("xrgb"@)), "XB24"@),
{
    lemma_names();
    reveal_strlit("XB24");
}

/// Whether a name is one that the configuration file documents, each for another
/// format.
pub open spec fn leading_name(name: Seq<char>) -> bool {
    name == "nv12"@ || name == "yuyv"@ || name == "uyvy"@ || name == "p010"@ || name == "mjpg"@ || name
        == "xrgb"@
}

/// Different formats have different codes, and a name that is not known stands
/// for NV12.
pub proof fn law_formats_are_told_apart(a: Seq<char>, b: Seq<char>)
    requires
        leading_name(a),
    ensures
        leading_name(b) && a != b ==> config::pixfmt_of(a) != config::pixfmt_of(b),
        startup::named_format(b) is None && text::is_ascii_text(b) ==> config::pixfmt_of(text::lower(b))
            == config::pixfmt_of("nv12"@),
{
    lemma_names();
    if text::is_ascii_text(b) {
        assert(text::lower(b) =~= startup::folded(b));
    }
}

/// The command line and the configuration file agree on every name that both
/// accept, whatever the case of its letters.
pub proof fn law_command_line_agrees(name: Seq<char>)
    requires
        text::is_ascii_text(name),
        startup::named_format(name) is Some,
    ensures
        startup::named_format(name) == Some(config::pixfmt_of(text::lower(name))),
{
    lemma_names();
    assert(text::lower(name) =~= startup::folded(name));
}

/// The command line understands the ten names of the configuration file and no
/// other.
pub proof fn law_command_line_names(name: Seq<char>)
    ensures
        startup::named_format(name) is Some <==> {
            let low = startup::folded(name);
            leading_name(low) || low == "yuy2"@ || low == "mjpeg"@ || low == "rgbx"@ || low == "bgrx"@
        },
{
}

/// The name shown for the format that a name of four letters stands for is this
/// name in upper case.
pub proof fn law_shown_format_is_the_name(name: Seq<char>)
    requires
        name == "nv12"@ || name == "yuyv"@ || name == "uyvy"@ || name == "p010"@ || name == "mjpg"@,
    ensures
        ({
            let b = capture::le_bytes(config::pixfmt_of(name));
            &&& vstd::utf8::valid_utf8(b)
            &&& vstd::utf8::decode_utf8(b) == upper(name)
        }),
{
    lemma_names();
    let b = capture::le_bytes(config::pixfmt_of(name));
    let u = upper(name);
    law_format_code_spells_its_name(name);
    assert(vstd::utf8::is_ascii_chars(u));
    vstd::utf8::is_ascii_chars_encode_utf8(u);
    assert(b =~= vstd::utf8::encode_utf8(u));
    vstd::utf8::encode_utf8_valid_utf8(u);
    vstd::utf8::encode_utf8_decode_utf8(u);
}

/// The textures of the simple renderer have the layout of the frames: each
/// format with bytes of its own gets its own, and no two share one.
pub proof fn law_texture_formats(a: u32, b: u32)
    ensures
        startup::texture_format(config::pixfmt_of("nv12"@)) == Ok::<TextureFormat, FormatError>(
            TextureFormat::Nv12,
        ),
        startup::texture_format(config::pixfmt_of("yuyv"@)) == Ok::<TextureFormat, FormatError>(
            TextureFormat::Yuy2,
        ),
        startup::texture_format(config::pixfmt_of("uyvy"@)) == Ok::<TextureFormat, FormatError>(
            TextureFormat::Uyvy,
        ),
        startup::texture_format(config::pixfmt_of("bgrx"@)) == Ok::<TextureFormat, FormatError>(
            TextureFormat::Bgrx8888,
        ),
        startup::texture_format(config::pixfmt_of("p010"@)) == Err::<TextureFormat, FormatError>(
            FormatError::NeedsShaders,
        ),
        startup::texture_format(config::pixfmt_of("mjpg"@)) == Err::<TextureFormat, FormatError>(
            FormatError::Unsupported,
        ),
        startup::texture_format(a) is Ok && startup::texture_format(a) == startup::texture_format(b)
            ==> a == b,
{
    lemma_names();
}

/// AVFoundation is asked for UYVY under its code for it, and for any other format
/// under the code that reads 420v, which is NV12.
pub proof fn law_native_formats(pixfmt: u32)
    ensures
        capture::avf_of(config::pixfmt_of("uyvy"@)) == 0x32797576,
        pixfmt != config::pixfmt_of("uyvy"@) ==> capture::avf_of(pixfmt) == 16777216 * ('4' as u32)
            + 65536 * ('2' as u32) + 256 * ('0' as u32) + ('v' as u32),
{
    lemma_names();
}

proof fn lemma_names()
    ensures
        "nv12"@ == seq!['n', 'v', '1', '2'],
        "yuyv"@ == seq!['y', 'u', 'y', 'v'],
        "yuy2"@ == seq!['y', 'u', 'y', '2'],
        "uyvy"@ == seq!['u', 'y', 'v', 'y'],
        "xrgb"@ == seq!['x', 'r', 'g', 'b'],
        "rgbx"@ == seq!['r', 'g', 'b', 'x'],
        "bgrx"@ == seq!['b', 'g', 'r', 'x'],
        "p010"@ == seq!['p', '0', '1', '0'],
        "mjpg"@ == seq!['m', 'j', 'p', 'g'],
        "mjpeg"@ == seq!['m', 'j', 'p', 'e', 'g'],
        "nv12"@[0] == 'n',
        "yuyv"@[0] == 'y' && "yuyv"@[3] == 'v',
        "yuy2"@[0] == 'y' && "yuy2"@[3] == '2',
        "uyvy"@[0] == 'u',
        "xrgb"@[0] == 'x',
        "rgbx"@[0] == 'r',
        "bgrx"@[0] == 'b',
        "p010"@[0] == 'p',
        "mjpg"@[0] == 'm' && "mjpg"@.len() == 4,
        "mjpeg"@[0] == 'm' && "mjpeg"@.len() == 5,
{
    reveal_strlit("nv12");
    reveal_strlit("yuyv");
    reveal_strlit("yuy2");
    reveal_strlit("uyvy");
    reveal_strlit("xrgb");
    reveal_strlit("rgbx");
    reveal_strlit("bgrx");
    reveal_strlit("p010");
    reveal_strlit("mjpg");
    reveal_strlit("mjpeg");
    assert("nv12"@ =~= seq!['n', 'v', '1', '2']);
    assert("yuyv"@ =~= seq!['y', 'u', 'y', 'v']);
    assert("yuy2"@ =~= seq!['y', 'u', 'y', '2']);
    assert("uyvy"@ =~= seq!['u', 'y', 'v', 'y']);
    assert("xrgb"@ =~= seq!['x', 'r', 'g', 'b']);
    assert("rgbx"@ =~= seq!['r', 'g', 'b', 'x']);
    assert("bgrx"@ =~= seq!['b', 'g', 'r', 'x']);
    assert("p010"@ =~= seq!['p', '0', '1', '0']);
    assert("mjpg"@ =~= seq!['m', 'j', 'p', 'g']);
    assert("mjpeg"@ =~= seq!['m', 'j', 'p', 'e', 'g']);
}

} // verus!
