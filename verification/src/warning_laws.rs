//! What warnings promise: they come for words that change nothing, not for those
//! that do, and say which line and which word they are about.

use vstd::prelude::*;

use crate::config::{self, ConfigView};
use crate::config_warnings::{self, Cause, NumberedView, WarningView};
use crate::menu_laws;
use crate::number;
use crate::startup;
use crate::text;

verus! {

/// A format is warned of where the command line would not know it either.
pub proof fn law_format_warnings(line: nat, val: Seq<char>)
    requires
        text::is_ascii_text(val),
    ensures
        ({
            let w = config_warnings::remarks(line, "format"@, val);
            &&& startup::named_format(val) is Some ==> w.len() == 0
            &&& startup::named_format(val) is None ==> w == seq![
                WarningView { line, cause: Cause::Format, word: val },
            ]
        }),
{
    assert(text::lower(val) =~= startup::folded(val));
}

/// A word for a choice is warned of where it leaves the settings as they were,
/// whatever they were; one that sets its choice is not.
pub proof fn law_choice_warnings(a: ConfigView, b: ConfigView, line: nat, val: Seq<char>)
    requires
        a.renderer != b.renderer,
        a.vk_present_mode != b.vk_present_mode,
        a.record_resolution != b.record_resolution,
        a.screenshot_format != b.screenshot_format,
    ensures
        config_warnings::remarks(line, "renderer"@, val).len() == 0 <==> !(config::applied(
            a,
            "renderer"@,
            val,
        ) == Some(a) && config::applied(b, "renderer"@, val) == Some(b)),
        config_warnings::remarks(line, "vk_present_mode"@, val).len() == 0 <==> !(config::applied(
            a,
            "vk_present_mode"@,
            val,
        ) == Some(a) && config::applied(b, "vk_present_mode"@, val) == Some(b)),
        config_warnings::remarks(line, "record_resolution"@, val).len() == 0 <==> !(config::applied(
            a,
            "record_resolution"@,
            val,
        ) == Some(a) && config::applied(b, "record_resolution"@, val) == Some(b)),
        config_warnings::remarks(line, "screenshot_format"@, val).len() == 0 <==> !(config::applied(
            a,
            "screenshot_format"@,
            val,
        ) == Some(a) && config::applied(b, "screenshot_format"@, val) == Some(b)),
{
    menu_laws::lemma_keys_differ();
    menu_laws::lemma_values_differ();
}

/// An address is warned of where it is none, and then whether its parts are four.
pub proof fn law_address_warnings(line: nat, val: Seq<char>)
    ensures
        ({
            let w = config_warnings::remarks(line, "stream_client_ip"@, val);
            &&& w.len() == 0 <==> config::address(val) is Some
            &&& config::address(val) is None && text::pieces(val, '.').len() == 4 ==> w == seq![
                WarningView { line, cause: Cause::Address, word: val },
            ]
            &&& text::pieces(val, '.').len() != 4 ==> w == seq![
                WarningView { line, cause: Cause::AddressParts, word: val },
            ]
        }),
        ({
            let w = config_warnings::remarks(line, "window"@, val);
            &&& config::window_size(val) is Some ==> w.len() == 0
            &&& config::window_size(val) is None ==> w == seq![
                WarningView { line, cause: Cause::Window, word: val },
            ]
        }),
{
    menu_laws::lemma_keys_differ();
}

/// A name in a list of measures is warned of where it stands for none.
pub proof fn law_measure_warnings(line: nat, names: Seq<Seq<char>>, name: Seq<char>)
    ensures
        ({
            let before = config_warnings::strange_flags(line, names);
            let after = config_warnings::strange_flags(line, names.push(name));
            &&& config::flag_bits(text::trimmed(name)) != 0 ==> after == before
            &&& config::flag_bits(text::trimmed(name)) == 0 ==> after == before.push(
                WarningView { line, cause: Cause::PriorityFlag, word: text::trimmed(name) },
            )
        }),
        config_warnings::strange_flags(line, Seq::empty()).len() == 0,
{
    assert(names.push(name).drop_last() =~= names);
}

/// A key that is not known is warned of, and one that is known is not for that.
pub proof fn law_key_warnings(c: ConfigView, e: NumberedView)
    ensures
        config::outcome(c, e.key, e.value) is Unknown ==> config_warnings::remarked(c, e) == seq![
            WarningView { line: e.line, cause: Cause::Key, word: e.key },
        ],
        config::outcome(c, e.key, e.value) is Invalid ==> config_warnings::remarked(c, e).len() == 0,
        config::outcome(c, e.key, e.value) is Done ==> config_warnings::remarked(c, e)
            == config_warnings::remarks(e.line, e.key, e.value),
{
}

/// The texts of the warnings: the file, the line and what is wrong there.
pub proof fn law_warning_texts(line: nat, word: Seq<char>)
    ensures
        ({
            let at = "capview.conf:"@ + number::decimal(line) + ": "@;
            &&& config_warnings::message_of(WarningView { line, cause: Cause::Key, word }) == at
                + "unknown key '"@ + word + "'"@
            &&& config_warnings::message_of(WarningView { line, cause: Cause::Format, word }) == at
                + "unknown format '"@ + word + "'"@
            &&& config_warnings::message_of(WarningView { line, cause: Cause::Window, word }) == at
                + "bad window size '"@ + word + "' (want WxH)"@
            &&& config_warnings::message_of(WarningView { line, cause: Cause::Renderer, word }) == at
                + "unknown renderer '"@ + word + "' (sdl|opengl|vulkan)"@
            &&& config_warnings::message_of(WarningView { line, cause: Cause::PresentMode, word })
                == at + "unknown present mode '"@ + word + "' (mailbox|immediate|fifo)"@
            &&& config_warnings::message_of(WarningView { line, cause: Cause::RecordResolution, word })
                == at + "unknown record_resolution '"@ + word + "' (native|window)"@
            &&& config_warnings::message_of(WarningView { line, cause: Cause::ScreenshotFormat, word })
                == at + "unknown screenshot_format '"@ + word + "' (png|jpeg)"@
            &&& config_warnings::message_of(WarningView { line, cause: Cause::Address, word }) == at
                + "bad stream_client_ip '"@ + word + "'"@
            &&& config_warnings::message_of(WarningView { line, cause: Cause::AddressParts, word })
                == at + "bad stream_client_ip '"@ + word + "' (want A.B.C.D)"@
            &&& config_warnings::message_of(WarningView { line, cause: Cause::PriorityFlag, word })
                == "capview: "@ + "unknown priority flag '"@ + word + "'"@
        }),
{
}

} // verus!
