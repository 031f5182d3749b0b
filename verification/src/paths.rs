//! Where files are looked for.

use vstd::prelude::*;

use crate::config::Config;
use crate::config_file;
use crate::text;

verus! {

/// The path of something in a directory.
pub open spec fn beneath(dir: Seq<char>, name: Seq<char>) -> Seq<char> {
    if dir.len() == 0 || dir.last() == '/' {
        dir + name
    } else {
        dir + seq!['/'] + name
    }
}

fn join(dir: &[char], name: &str) -> (r: Vec<char>)
    ensures
        r@ == beneath(dir@, name@),
{
    let mut out = vstd::slice::slice_to_vec(dir);
    if dir.len() > 0 && dir[dir.len() - 1] != '/' {
        out.push('/');
    }
    text::extend(&mut out, text::chars_of(name).as_slice());
    out
}

/// The text of an optional argument.
pub open spec fn text_of(s: Option<&str>) -> Option<Seq<char>> {
    match s {
        Some(t) => Some(t@),
        None => None,
    }
}

/// The path of the configuration file, from the directory for configurations and
/// the home directory, where they are known.
pub open spec fn config_file_path(xdg: Option<Seq<char>>, home: Option<Seq<char>>) -> Seq<char> {
    match (xdg, home) {
        (Some(x), _) => beneath(
            beneath(x, config_file::CONFIG_DIR@),
            config_file::CONFIG_FILE@,
        ),
        (None, Some(h)) => beneath(
            beneath(beneath(h, ".config"@), config_file::CONFIG_DIR@),
            config_file::CONFIG_FILE@,
        ),
        (None, None) => config_file::CONFIG_FILE@,
    }
}

/// Finds the path of the configuration file.
pub fn config_path(xdg: Option<&str>, home: Option<&str>) -> (r: String)
    ensures
        r@ == config_file_path(text_of(xdg), text_of(home)),
{
    match (xdg, home) {
        (Some(x), _) => {
            let d = join(text::chars_of(x).as_slice(), config_file::CONFIG_DIR);
            text::string_of(join(d.as_slice(), config_file::CONFIG_FILE).as_slice())
        },
        (None, Some(h)) => {
            let c = join(text::chars_of(h).as_slice(), ".config");
            let d = join(c.as_slice(), config_file::CONFIG_DIR);
            text::string_of(join(d.as_slice(), config_file::CONFIG_FILE).as_slice())
        },
        (None, None) => config_file::CONFIG_FILE.to_owned(),
    }
}

/// A directory with `~/` at its beginning replaced by the home directory, where
/// that is known.
pub open spec fn expanded(dir: Seq<char>, home: Option<Seq<char>>) -> Seq<char> {
    match home {
        Some(h) if text::begins(dir, "~/"@) => h + dir.skip(1),
        _ => dir,
    }
}

impl Config {
    /// Where screenshots go.
    pub fn screenshot_path(&self, home: Option<&str>) -> (r: String)
        ensures
            r@ == expanded(self.screenshot_dir@, text_of(home)),
    {
        let dir = text::chars_of(self.screenshot_dir.as_str());
        if let Some(h) = home {
            if text::starts_with(dir.as_slice(), text::chars_of("~/").as_slice()) {
                proof {
                    reveal_strlit("~/");
                    assert("~/"@.len() == 2);
                }
                let mut out = text::chars_of(h);
                let rest = &dir.as_slice()[1..dir.len()];
                assert(rest@ =~= dir@.skip(1));
                text::extend(&mut out, rest);
                return text::string_of(out.as_slice());
            }
        }
        text::string_of(dir.as_slice())
    }
}

/// The path of the interpolation model in the directory for configurations.
pub open spec fn model_in_config(xdg: Option<Seq<char>>, home: Seq<char>) -> Seq<char> {
    let base = match xdg {
        Some(x) => x,
        None => home + "/.config"@,
    };
    beneath(beneath(base, "capview"@), "rife.onnx"@)
}

fn in_config(xdg: Option<&str>, home: &str) -> (r: Vec<char>)
    ensures
        r@ == model_in_config(text_of(xdg), home@),
{
    let base = match xdg {
        Some(x) => text::chars_of(x),
        None => {
            let mut b = text::chars_of(home);
            text::extend(&mut b, text::chars_of("/.config").as_slice());
            b
        },
    };
    let d = join(base.as_slice(), "capview");
    join(d.as_slice(), "rife.onnx")
}

/// Where the interpolation model may be, in the order in which it is looked for:
/// where the environment says, in the directory for configurations, beside the
/// program, and here.
pub open spec fn model_candidates(
    named: Option<Seq<char>>,
    xdg: Option<Seq<char>>,
    home: Option<Seq<char>>,
    program_dir: Option<Seq<char>>,
) -> Seq<Seq<char>> {
    let a = match named {
        Some(p) => seq![p],
        None => Seq::empty(),
    };
    let b = match home {
        Some(h) => seq![model_in_config(xdg, h)],
        None => Seq::empty(),
    };
    let c = match program_dir {
        Some(d) => seq![beneath(d, "rife.onnx"@)],
        None => Seq::empty(),
    };
    a + b + c + seq!["rife.onnx"@]
}

/// Lists where the interpolation model may be.
pub fn rife_model_candidates(
    named: Option<&str>,
    xdg: Option<&str>,
    home: Option<&str>,
    program_dir: Option<&str>,
) -> (r: Vec<String>)
    ensures
        crate::config::strings(r@) == model_candidates(
            text_of(named),
            text_of(xdg),
            text_of(home),
            text_of(program_dir),
        ),
{
    let mut out: Vec<String> = Vec::new();
    if let Some(p) = named {
        out.push(p.to_owned());
    }
    if let Some(h) = home {
        out.push(text::string_of(in_config(xdg, h).as_slice()));
    }
    if let Some(d) = program_dir {
        out.push(text::string_of(join(text::chars_of(d).as_slice(), "rife.onnx").as_slice()));
    }
    out.push("rife.onnx".to_owned());
    assert(crate::config::strings(out@) =~= model_candidates(
        text_of(named),
        text_of(xdg),
        text_of(home),
        text_of(program_dir),
    ));
    out
}

/// Chooses the path of the interpolation model: the first candidate that is
/// there, else the one in the directory for configurations, else the one here.
pub fn rife_model_path(
    candidates: &[String],
    there: &[bool],
    xdg: Option<&str>,
    home: Option<&str>,
) -> (r: String)
    requires
        candidates@.len() == there@.len(),
    ensures
        match first_true(there@, 0) {
            Some(i) => r@ == candidates@[i]@,
            None => r@ == match home {
                Some(h) => model_in_config(text_of(xdg), h@),
                None => "rife.onnx"@,
            },
        },
{
    let mut i: usize = 0;
    while i < there.len()
        invariant
            i <= there@.len(),
            candidates@.len() == there@.len(),
            first_true(there@, 0) == first_true(there@, i as int),
        decreases there@.len() - i,
    {
        if there[i] {
            return text::string_of(text::chars_of(candidates[i].as_str()).as_slice());
        }
        i += 1;
    }
    match home {
        Some(h) => text::string_of(in_config(xdg, h).as_slice()),
        None => "rife.onnx".to_owned(),
    }
}

/// The first place from `from` on that holds.
pub open spec fn first_true(b: Seq<bool>, from: int) -> Option<int>
    decreases b.len() - from,
{
    if from < 0 || from >= b.len() {
        None
    } else if b[from] {
        Some(from)
    } else {
        first_true(b, from + 1)
    }
}

} // verus!
