//! The command line: options, the subcommand they select, and the
//! subcommands' own arguments.
use vstd::prelude::*;
use vstd::string::StringExecFns;
use crate::i18n::{language_of_tag, Language};
use crate::text::{all_digits, ascii_lower, chars_eq, chars_of, dec_value, parse_u64_digits};

verus! {

/// The text of each argument.
pub open spec fn arg_views(args: Seq<String>) -> Seq<Seq<char>> {
    args.map_values(|a: String| a@)
}

/// The options read from `args[i..]` on top of those already read: `--lang
/// TAG` sets the language when the tag is known (and is skipped either way),
/// `--no-ui` asks for headless play, anything else is a path argument; a
/// final `--lang` without a tag counts as a path argument.
pub open spec fn options_from(args: Seq<Seq<char>>, i: int, lang: Language, no_ui: bool, paths: Seq<Seq<char>>) -> (Language, bool, Seq<Seq<char>>)
    decreases args.len() - i,
{
    if i < 0 || i >= args.len() {
        (lang, no_ui, paths)
    } else if args[i] == "--lang"@ && i + 1 < args.len() {
        let l = match language_of_tag(ascii_lower(args[i + 1])) {
            Some(l) => l,
            None => lang,
        };
        options_from(args, i + 2, l, no_ui, paths)
    } else if args[i] == "--no-ui"@ {
        options_from(args, i + 1, lang, true, paths)
    } else {
        options_from(args, i + 1, lang, no_ui, paths.push(args[i]))
    }
}

/// The parsed command line.
pub struct CliOptions {
    pub lang: Language,
    pub no_ui: bool,
    pub path_args: Vec<String>,
}

impl CliOptions {
    /// Reads the options from the arguments after the program name; the
    /// language defaults to Traditional Chinese.
    pub fn from_args(args: &[String]) -> (r: CliOptions)
        ensures
            (r.lang, r.no_ui, arg_views(r.path_args@)) == options_from(
                arg_views(args@),
                0,
                Language::ZhHant,
                false,
                Seq::empty(),
            ),
    {
        let ghost a = arg_views(args@);
        let mut lang = Language::ZhHant;
        let mut no_ui = false;
        let mut path_args: Vec<String> = Vec::new();
        assert(arg_views(path_args@) =~= Seq::<Seq<char>>::empty());
        let mut i: usize = 0;
        while i < args.len()
            invariant
                i <= args@.len(),
                a == arg_views(args@),
                options_from(a, 0, Language::ZhHant, false, Seq::empty()) == options_from(
                    a,
                    i as int,
                    lang,
                    no_ui,
                    arg_views(path_args@),
                ),
            decreases args@.len() - i,
        {
            let c = chars_of(args[i].as_str());
            assert(a[i as int] == args@[i as int]@);
            if chars_eq(c.as_slice(), "--lang") && i + 1 < args.len() {
                assert(a[i + 1] == args@[i + 1]@);
                match Language::parse(args[i + 1].as_str()) {
                    Some(l) => {
                        lang = l;
                    },
                    None => {},
                }
                i = i + 2;
            } else if chars_eq(c.as_slice(), "--no-ui") {
                no_ui = true;
                i = i + 1;
            } else {
                let ghost before = arg_views(path_args@);
                path_args.push(args[i].clone());
                assert(arg_views(path_args@) =~= before.push(a[i as int]));
                i = i + 1;
            }
        }
        CliOptions { lang, no_ui, path_args }
    }
}

/// What the command line asks for.
#[derive(Debug, PartialEq, Eq)]
pub enum CliCommand {
    /// Play (in a window unless headless), with the file or URL if one was given.
    Player(Option<String>),
    /// Play a file's audio; the arguments after the subcommand.
    Audio(Vec<String>),
    /// Decode a file's first frames; the arguments after the subcommand.
    Decode(Vec<String>),
    /// Show decoded frames in a bare window; the arguments after the subcommand.
    Render(Vec<String>),
    /// Print the usage text.
    Help,
}

/// The command selected by the first path argument.
pub open spec fn command_kind(paths: Seq<Seq<char>>) -> int {
    if paths.len() == 0 {
        0
    } else if paths[0] == "audio"@ {
        1
    } else if paths[0] == "decode"@ {
        2
    } else if paths[0] == "render"@ {
        3
    } else if paths[0] == "help"@ || paths[0] == "-h"@ || paths[0] == "--help"@ {
        4
    } else {
        5
    }
}

/// The command the options select: a subcommand word takes the remaining
/// path arguments; any other first argument is the media to play.
pub fn command_of(opts: &CliOptions) -> (r: CliCommand)
    ensures
        ({
            let p = arg_views(opts.path_args@);
            match r {
                CliCommand::Player(None) => command_kind(p) == 0,
                CliCommand::Player(Some(m)) => command_kind(p) == 5 && m@ == p[0],
                CliCommand::Audio(rest) => command_kind(p) == 1 && arg_views(rest@) == p.skip(1),
                CliCommand::Decode(rest) => command_kind(p) == 2 && arg_views(rest@) == p.skip(1),
                CliCommand::Render(rest) => command_kind(p) == 3 && arg_views(rest@) == p.skip(1),
                CliCommand::Help => command_kind(p) == 4,
            }
        }),
{
    let ghost p = arg_views(opts.path_args@);
    if opts.path_args.len() == 0 {
        return CliCommand::Player(None);
    }
    assert(p[0] == opts.path_args@[0]@);
    let c = chars_of(opts.path_args[0].as_str());
    let first = c.as_slice();
    let kind: u8 = if chars_eq(first, "audio") {
        1
    } else if chars_eq(first, "decode") {
        2
    } else if chars_eq(first, "render") {
        3
    } else if chars_eq(first, "help") || chars_eq(first, "-h") || chars_eq(first, "--help") {
        4
    } else {
        5
    };
    if kind == 4 {
        return CliCommand::Help;
    }
    if kind == 5 {
        return CliCommand::Player(Some(opts.path_args[0].clone()));
    }
    let mut rest: Vec<String> = Vec::new();
    let mut i: usize = 1;
    while i < opts.path_args.len()
        invariant
            1 <= i <= opts.path_args@.len(),
            p == arg_views(opts.path_args@),
            arg_views(rest@) == p.subrange(1, i as int),
        decreases opts.path_args@.len() - i,
    {
        let ghost before = arg_views(rest@);
        let item = opts.path_args[i].clone();
        assert(item@ == p[i as int]);
        rest.push(item);
        assert(arg_views(rest@) =~= before.push(p[i as int]));
        assert(arg_views(rest@) =~= p.subrange(1, i + 1));
        i = i + 1;
    }
    assert(p.subrange(1, i as int) =~= p.skip(1));
    if kind == 1 {
        CliCommand::Audio(rest)
    } else if kind == 2 {
        CliCommand::Decode(rest)
    } else {
        CliCommand::Render(rest)
    }
}

/// `s` without one leading `+`.
pub open spec fn unsigned_part(s: Seq<char>) -> Seq<char> {
    if s.len() > 0 && s[0] == '+' {
        s.skip(1)
    } else {
        s
    }
}

/// The value of `s` as `usize::from_str` reads it: an optional `+` and then
/// at least one decimal digit, within `usize`.
pub open spec fn usize_value(s: Seq<char>) -> Option<usize> {
    let d = unsigned_part(s);
    if d.len() > 0 && all_digits(d) && dec_value(d) <= usize::MAX {
        Some(dec_value(d) as usize)
    } else {
        None
    }
}

/// Reads a count as `usize::from_str` does.
pub fn parse_usize(s: &str) -> (r: Option<usize>)
    ensures
        r == usize_value(s@),
{
    let c = chars_of(s);
    let start: usize = if c.len() > 0 && c[0] == '+' {
        1
    } else {
        0
    };
    let d = crate::text::sub_chars(c.as_slice(), start, c.len());
    assert(d@ =~= if s@.len() > 0 && s@[0] == '+' {
        s@.skip(1)
    } else {
        s@
    });
    if d.len() == 0 {
        return None;
    }
    let ghost dd = unsigned_part(s@);
    let mut j: usize = 0;
    while j < d.len()
        invariant
            j <= d@.len(),
            d@ == dd,
            dd == unsigned_part(s@),
            forall|k: int| 0 <= k < j ==> '0' <= #[trigger] d@[k] <= '9',
        decreases d@.len() - j,
    {
        if !('0' <= d[j] && d[j] <= '9') {
            assert(!('0' <= d@[j as int] <= '9'));
            return None;
        }
        j = j + 1;
    }
    match parse_u64_digits(d.as_slice()) {
        None => None,
        Some(v) => {
            if v > usize::MAX as u64 {
                None
            } else {
                Some(v as usize)
            }
        },
    }
}

/// The frame count of `decode FILE [--frames N]`: the last well-formed
/// `--frames` value, 30 when absent; a malformed value counts as 30.
pub open spec fn frames_from(args: Seq<Seq<char>>, i: int, frames: usize) -> usize
    decreases args.len() - i,
{
    if i < 1 || i >= args.len() {
        frames
    } else if args[i] == "--frames"@ && i + 1 < args.len() {
        let f = match usize_value(args[i + 1]) {
            Some(v) => v,
            None => 30,
        };
        frames_from(args, i + 2, f)
    } else {
        frames_from(args, i + 1, frames)
    }
}

/// How many frames `decode` decodes, from its arguments (the file first).
pub fn decode_frame_count(args: &[String]) -> (r: usize)
    ensures
        r == frames_from(arg_views(args@), 1, 30),
{
    let ghost a = arg_views(args@);
    let mut frames: usize = 30;
    let mut i: usize = 1;
    while i < args.len()
        invariant
            1 <= i,
            a == arg_views(args@),
            frames_from(a, 1, 30) == frames_from(a, i as int, frames),
        decreases args@.len() - i,
    {
        let c = chars_of(args[i].as_str());
        assert(a[i as int] == args@[i as int]@);
        if chars_eq(c.as_slice(), "--frames") && i + 1 < args.len() {
            assert(a[i + 1] == args@[i + 1]@);
            frames = match parse_usize(args[i + 1].as_str()) {
                Some(v) => v,
                None => 30,
            };
            i = i + 2;
        } else {
            i = i + 1;
        }
    }
    frames
}

/// Whether `audio FILE ...` asks for progress reports (`--progress` anywhere).
pub fn wants_progress(args: &[String]) -> (r: bool)
    ensures
        r == exists|k: int| 0 <= k < args@.len() && #[trigger] args@[k]@ == "--progress"@,
{
    let mut i: usize = 0;
    while i < args.len()
        invariant
            i <= args@.len(),
            forall|k: int| 0 <= k < i ==> #[trigger] args@[k]@ != "--progress"@,
        decreases args@.len() - i,
    {
        let c = chars_of(args[i].as_str());
        if chars_eq(c.as_slice(), "--progress") {
            return true;
        }
        i = i + 1;
    }
    false
}

/// The words that ask for the usage text: `help`, `-h` and `--help`, as
/// the first path argument, whatever follows; any other first argument
/// names a subcommand or the media to play.
pub proof fn law_help_words_select_help(paths: Seq<Seq<char>>)
    requires
        paths.len() > 0,
    ensures
        command_kind(paths) == 4 <==> (paths[0] == "help"@ || paths[0] == "-h"@ || paths[0] == "--help"@),
        command_kind(paths) == 5 <==> !(paths[0] == "help"@ || paths[0] == "-h"@ || paths[0] == "--help"@
            || paths[0] == "audio"@ || paths[0] == "decode"@ || paths[0] == "render"@),
{
    reveal_strlit("help");
    reveal_strlit("-h");
    reveal_strlit("--help");
    reveal_strlit("audio");
    reveal_strlit("decode");
    reveal_strlit("render");
    let w = paths[0];
    if w == "help"@ {
        assert(w[0] != "audio"@[0]);
        assert(w.len() != "decode"@.len());
        assert(w.len() != "render"@.len());
    } else if w == "-h"@ || w == "--help"@ {
        assert(w[0] != "audio"@[0]);
        assert(w[0] != "decode"@[0]);
        assert(w[0] != "render"@[0]);
    }
}

/// Each subcommand word selects its own command: `audio`, `decode` and
/// `render` as the first path argument, and nothing else.
pub proof fn law_subcommand_words(paths: Seq<Seq<char>>)
    requires
        paths.len() > 0,
    ensures
        command_kind(paths) == 1 <==> paths[0] == "audio"@,
        command_kind(paths) == 2 <==> paths[0] == "decode"@,
        command_kind(paths) == 3 <==> paths[0] == "render"@,
        command_kind(paths) != 0,
{
    reveal_strlit("audio");
    reveal_strlit("decode");
    reveal_strlit("render");
    let w = paths[0];
    if w == "decode"@ {
        assert(w.len() != "audio"@.len());
    } else if w == "render"@ {
        assert(w.len() != "audio"@.len());
        assert(w[0] != "decode"@[0]);
    }
}

} // verus!
