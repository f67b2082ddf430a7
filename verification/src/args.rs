//! Command-line arguments.
//!
//! Without arguments the program opens its graphical interface; with URLs
//! it downloads them in the terminal.

use vstd::prelude::*;
use crate::text::chars_of;
use crate::text::eq_str;
use crate::text::opt_text;
use crate::text::parse_u64;
use crate::text::parse_u64_spec;
use crate::text::starts_with;
use crate::text::trim_bounds;
use crate::text::trimmed;

verus! {

/// Parsed command-line arguments.
#[derive(Debug, Clone)]
pub struct AppArgs {
    /// Run in GUI mode (default: false = terminal mode).
    pub gui: bool,
    /// Interactive TUI with progress bars (default for terminal mode).
    pub interactive: bool,
    /// Quiet mode: no output, exit code only.
    pub quiet: bool,
    /// Enable debug logging.
    pub debug: bool,
    /// Start GUI minimized to tray.
    pub minimized: bool,
    /// URLs to download.
    pub urls: Vec<String>,
    /// File containing URLs (one per line).
    pub file: Option<String>,
    /// Output directory.
    pub output: Option<String>,
    /// Connections per download (overrides settings).
    pub connections: Option<u8>,
    /// Speed limit (e.g. "1M", "500K").
    pub limit: Option<String>,
    /// Deep link URL (`tur://...`).
    pub deep_link: Option<String>,
    /// Print help.
    pub help: bool,
    /// Print version.
    pub version: bool,
}

/// The arguments as plain values.
pub struct ArgsModel {
    pub gui: bool,
    pub interactive: bool,
    pub quiet: bool,
    pub debug: bool,
    pub minimized: bool,
    pub urls: Seq<Seq<char>>,
    pub file: Option<Seq<char>>,
    pub output: Option<Seq<char>>,
    pub connections: Option<u8>,
    pub limit: Option<Seq<char>>,
    pub deep_link: Option<Seq<char>>,
    pub help: bool,
    pub version: bool,
}

/// What to do before the application starts.
#[derive(Clone, Copy, Debug, PartialEq, Eq, Structural)]
pub enum EarlyAction {
    /// Print the help text and exit.
    Help,
    /// Print the version and exit.
    Version,
    /// Start the application.
    Continue,
}

/// The texts of a sequence of strings.
pub open spec fn texts_of(s: Seq<String>) -> Seq<Seq<char>> {
    s.map_values(|t: String| t@)
}

impl View for AppArgs {
    type V = ArgsModel;

    open spec fn view(&self) -> ArgsModel {
        ArgsModel {
            gui: self.gui,
            interactive: self.interactive,
            quiet: self.quiet,
            debug: self.debug,
            minimized: self.minimized,
            urls: texts_of(self.urls@),
            file: opt_text(self.file),
            output: opt_text(self.output),
            connections: self.connections,
            limit: opt_text(self.limit),
            deep_link: opt_text(self.deep_link),
            help: self.help,
            version: self.version,
        }
    }
}

/// The arguments before any was read: terminal mode, interactive.
pub open spec fn default_model() -> ArgsModel {
    ArgsModel {
        gui: false,
        interactive: true,
        quiet: false,
        debug: false,
        minimized: false,
        urls: Seq::empty(),
        file: None,
        output: None,
        connections: None,
        limit: None,
        deep_link: None,
        help: false,
        version: false,
    }
}

/// `s` begins with `prefix`.
pub open spec fn has_prefix(s: Seq<char>, prefix: Seq<char>) -> bool {
    prefix.len() <= s.len() && s.subrange(0, prefix.len() as int) == prefix
}

/// The value of an option: the argument behind it, if there is one.
pub open spec fn value_at(args: Seq<Seq<char>>, i: int) -> Option<Seq<char>> {
    if i + 1 < args.len() {
        Some(args[i + 1])
    } else {
        None
    }
}

/// A number of connections: a decimal number up to 255.
pub open spec fn connections_of(s: Seq<char>) -> Option<u8> {
    match parse_u64_spec(s) {
        Some(v) => if v <= 255 {
            Some(v as u8)
        } else {
            None
        },
        None => None,
    }
}

/// The arguments after the one at `i` was read, and how many arguments
/// that took.
///
/// A flag sets its field. An option takes the next argument as its value;
/// without one it changes nothing. An argument that begins with `tur://`
/// is the deep link, one that begins with `http://` or `https://` or with
/// anything but `-` is a URL, and an unknown flag is passed over.
pub open spec fn after_arg(m: ArgsModel, args: Seq<Seq<char>>, i: int) -> (ArgsModel, int) {
    let a = args[i];
    if a == "--gui"@ || a == "-g"@ {
        (ArgsModel { gui: true, ..m }, 1)
    } else if a == "--interactive"@ || a == "-i"@ {
        (ArgsModel { interactive: true, ..m }, 1)
    } else if a == "--quiet"@ || a == "-q"@ {
        (ArgsModel { quiet: true, interactive: false, ..m }, 1)
    } else if a == "--minimized"@ || a == "-m"@ {
        (ArgsModel { minimized: true, ..m }, 1)
    } else if a == "--debug"@ || a == "-d"@ {
        (ArgsModel { debug: true, ..m }, 1)
    } else if a == "--help"@ || a == "-h"@ {
        (ArgsModel { help: true, ..m }, 1)
    } else if a == "--version"@ || a == "-V"@ {
        (ArgsModel { version: true, ..m }, 1)
    } else if a == "--file"@ || a == "-f"@ {
        match value_at(args, i) {
            Some(v) => (ArgsModel { file: Some(v), ..m }, 2),
            None => (m, 2),
        }
    } else if a == "--output"@ || a == "-o"@ {
        match value_at(args, i) {
            Some(v) => (ArgsModel { output: Some(v), ..m }, 2),
            None => (m, 2),
        }
    } else if a == "--connections"@ || a == "-c"@ {
        match value_at(args, i) {
            Some(v) => (ArgsModel { connections: connections_of(v), ..m }, 2),
            None => (m, 2),
        }
    } else if a == "--limit"@ || a == "-l"@ {
        match value_at(args, i) {
            Some(v) => (ArgsModel { limit: Some(v), ..m }, 2),
            None => (m, 2),
        }
    } else if has_prefix(a, "tur://"@) {
        (ArgsModel { deep_link: Some(a), ..m }, 1)
    } else if has_prefix(a, "http://"@) || has_prefix(a, "https://"@) || !has_prefix(a, "-"@) {
        (ArgsModel { urls: m.urls.push(a), ..m }, 1)
    } else {
        (m, 1)
    }
}

/// The arguments after all of `args` from `i` on were read.
pub open spec fn parse_from(m: ArgsModel, args: Seq<Seq<char>>, i: int) -> ArgsModel
    decreases args.len() - i,
{
    if i < 0 || i >= args.len() {
        m
    } else if after_arg(m, args, i).1 == 2 && i + 2 <= args.len() {
        parse_from(after_arg(m, args, i).0, args, i + 2)
    } else if after_arg(m, args, i).1 == 2 {
        after_arg(m, args, i).0
    } else {
        parse_from(after_arg(m, args, i).0, args, i + 1)
    }
}

/// With nothing to download and neither help nor version asked for, the
/// graphical interface is opened.
pub open spec fn with_default_mode(m: ArgsModel) -> ArgsModel {
    if m.urls.len() == 0 && m.file is None && m.deep_link is None && !m.help && !m.version {
        ArgsModel { gui: true, ..m }
    } else {
        m
    }
}

/// What the arguments `args` mean.
pub open spec fn parse_args(args: Seq<Seq<char>>) -> ArgsModel {
    with_default_mode(parse_from(default_model(), args, 0))
}

/// The factor that a size suffix stands for.
pub open spec fn suffix_factor(c: char) -> Option<u64> {
    if c == 'G' || c == 'g' {
        Some(1073741824u64)
    } else if c == 'M' || c == 'm' {
        Some(1048576u64)
    } else if c == 'K' || c == 'k' {
        Some(1024u64)
    } else {
        None
    }
}

/// The number that `s` spells, 0 when it spells none.
pub open spec fn number_or_zero(s: Seq<char>) -> u64 {
    match parse_u64_spec(s) {
        Some(v) => v,
        None => 0,
    }
}

/// The product of `a` and `b`, and `u64::MAX` when it is beyond 64 bits.
pub open spec fn saturating_product(a: u64, b: u64) -> u64 {
    if a * b <= u64::MAX {
        (a * b) as u64
    } else {
        u64::MAX
    }
}

/// The number of bytes that a size such as `500K`, `1M` or `2G` stands
/// for: the number in front, times 1024, 1024² or 1024³ for a suffix `K`,
/// `M` or `G` in either case. White space around the text is ignored, and
/// text that spells no number counts as 0.
pub open spec fn parse_size_spec(s: Seq<char>) -> u64 {
    let t = trimmed(s);
    if t.len() > 0 && suffix_factor(t.last()) is Some {
        saturating_product(number_or_zero(t.drop_last()), suffix_factor(t.last())->0)
    } else {
        number_or_zero(t)
    }
}

impl Default for AppArgs {
    fn default() -> (r: AppArgs)
        ensures
            r@ == default_model(),
    {
        let r = AppArgs {
            gui: false,
            interactive: true,
            quiet: false,
            debug: false,
            minimized: false,
            urls: Vec::new(),
            file: None,
            output: None,
            connections: None,
            limit: None,
            deep_link: None,
            help: false,
            version: false,
        };
        proof {
            assert(r@.urls =~= Seq::<Seq<char>>::empty());
        }
        r
    }
}

impl AppArgs {
    /// Parses the arguments that follow the program name.
    pub fn parse_from_vec(args: &[String]) -> (parsed: AppArgs)
        ensures
            parsed@ == parse_args(texts_of(args@)),
    {
        let mut parsed = AppArgs::default();
        let ghost all = texts_of(args@);
        let mut i: usize = 0;
        while i < args.len()
            invariant
                all == texts_of(args@),
                parse_from(default_model(), all, 0) == parse_from(parsed@, all, i as int),
            decreases args.len() - i,
        {
            let width = parsed.read_arg(args, i);
            i = if width == 2 && i + 1 >= args.len() {
                args.len()
            } else {
                i + width
            };
        }
        if parsed.urls.len() == 0 && parsed.file.is_none() && parsed.deep_link.is_none()
            && !parsed.help && !parsed.version {
            parsed.gui = true;
        }
        parsed
    }

    /// Reads the argument at `i` and returns how many arguments that took.
    #[verifier::rlimit(50)]
    fn read_arg(&mut self, args: &[String], i: usize) -> (width: usize)
        requires
            i < args@.len(),
        ensures
            (final(self)@, width as int) == after_arg(old(self)@, texts_of(args@), i as int),
            width == 1 || width == 2,
    {
        let ghost before = self@;
        let ghost all = texts_of(args@);
        let a = chars_of(args[i].as_str());
        let n = a.len();
        proof {
            assert(a@.subrange(0, n as int) =~= a@);
            assert(all[i as int] == a@);
        }
        let mut width: usize = 1;
        if eq_str(&a, 0, n, "--gui") || eq_str(&a, 0, n, "-g") {
            self.gui = true;
        } else if eq_str(&a, 0, n, "--interactive") || eq_str(&a, 0, n, "-i") {
            self.interactive = true;
        } else if eq_str(&a, 0, n, "--quiet") || eq_str(&a, 0, n, "-q") {
            self.quiet = true;
            self.interactive = false;
        } else if eq_str(&a, 0, n, "--minimized") || eq_str(&a, 0, n, "-m") {
            self.minimized = true;
        } else if eq_str(&a, 0, n, "--debug") || eq_str(&a, 0, n, "-d") {
            self.debug = true;
        } else if eq_str(&a, 0, n, "--help") || eq_str(&a, 0, n, "-h") {
            self.help = true;
        } else if eq_str(&a, 0, n, "--version") || eq_str(&a, 0, n, "-V") {
            self.version = true;
        } else if eq_str(&a, 0, n, "--file") || eq_str(&a, 0, n, "-f") {
            width = 2;
            if i + 1 < args.len() {
                self.file = Some(args[i + 1].clone());
            }
        } else if eq_str(&a, 0, n, "--output") || eq_str(&a, 0, n, "-o") {
            width = 2;
            if i + 1 < args.len() {
                self.output = Some(args[i + 1].clone());
            }
        } else if eq_str(&a, 0, n, "--connections") || eq_str(&a, 0, n, "-c") {
            width = 2;
            if i + 1 < args.len() {
                self.connections = parse_connections(args[i + 1].as_str());
            }
        } else if eq_str(&a, 0, n, "--limit") || eq_str(&a, 0, n, "-l") {
            width = 2;
            if i + 1 < args.len() {
                self.limit = Some(args[i + 1].clone());
            }
        } else if starts_with(&a, 0, "tur://") {
            self.deep_link = Some(args[i].clone());
        } else if starts_with(&a, 0, "http://") || starts_with(&a, 0, "https://") || !starts_with(
            &a,
            0,
            "-",
        ) {
            proof {
                assert(texts_of(self.urls@.push(args@[i as int])) =~= texts_of(self.urls@).push(
                    a@,
                ));
            }
            self.urls.push(args[i].clone());
        }
        proof {
            assert(self@.urls =~= after_arg(before, all, i as int).0.urls);
        }
        width
    }

    /// The speed limit in bytes per second, if one was given.
    pub fn parse_speed_limit(&self) -> (r: Option<u64>)
        ensures
            r == match self.limit {
                Some(text) => Some(parse_size_spec(text@)),
                None => None,
            },
    {
        match &self.limit {
            Some(text) => Some(parse_size(text.as_str())),
            None => None,
        }
    }

    /// Whether to run in the terminal: not in GUI mode, and with something
    /// to download or to print.
    pub fn is_terminal_mode(&self) -> (r: bool)
        ensures
            r == (!self.gui && (self@.urls.len() > 0 || self.file is Some || self.deep_link is Some
                || self.help || self.version)),
    {
        !self.gui && (self.has_downloads() || self.help || self.version)
    }

    /// Whether there is anything to download: a URL, a file of URLs, or a
    /// deep link.
    pub fn has_downloads(&self) -> (r: bool)
        ensures
            r == (self@.urls.len() > 0 || self.file is Some || self.deep_link is Some),
    {
        self.urls.len() > 0 || self.file.is_some() || self.deep_link.is_some()
    }
}

/// The number of connections that `text` asks for.
fn parse_connections(text: &str) -> (r: Option<u8>)
    ensures
        r == connections_of(text@),
{
    let chars = chars_of(text);
    proof {
        assert(chars@.subrange(0, chars@.len() as int) =~= chars@);
    }
    match parse_u64(&chars, 0, chars.len()) {
        Some(v) => if v <= 255 {
            Some(v as u8)
        } else {
            None
        },
        None => None,
    }
}

/// The number of bytes that a size such as `500K`, `1M` or `2G` stands for.
pub fn parse_size(s: &str) -> (r: u64)
    ensures
        r == parse_size_spec(s@),
{
    let chars = chars_of(s);
    let (from, to) = trim_bounds(&chars);
    let ghost t = trimmed(s@);
    if from < to {
        let last = chars[to - 1];
        let factor: u64 = if last == 'G' || last == 'g' {
            1073741824
        } else if last == 'M' || last == 'm' {
            1048576
        } else if last == 'K' || last == 'k' {
            1024
        } else {
            0
        };
        proof {
            assert(t.last() == last);
        }
        if factor != 0 {
            proof {
                assert(t.drop_last() =~= chars@.subrange(from as int, to - 1));
            }
            let number = match parse_u64(&chars, from, to - 1) {
                Some(v) => v,
                None => 0,
            };
            return if number > u64::MAX / factor {
                u64::MAX
            } else {
                number * factor
            };
        }
    }
    match parse_u64(&chars, from, to) {
        Some(v) => v,
        None => 0,
    }
}

/// What the arguments ask for before the application starts: the help
/// text, else the version, else nothing.
pub fn handle_early_args(args: &AppArgs) -> (action: EarlyAction)
    ensures
        action == if args.help {
            EarlyAction::Help
        } else if args.version {
            EarlyAction::Version
        } else {
            EarlyAction::Continue
        },
{
    if args.help {
        EarlyAction::Help
    } else if args.version {
        EarlyAction::Version
    } else {
        EarlyAction::Continue
    }
}

} // verus!
