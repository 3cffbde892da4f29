//! The command line.

use crate::ctx::{fresh, BindCtx};
use crate::text::{same_text, views};
use vstd::prelude::*;
use vstd::string::*;

verus! {

/// What the options are, for a reader.
pub const OPTIONS: &'static str = "
Options:
    -h or --help    Display help message
    -l <name>       Link name of the library
    -o <output.rs>  Write bindings to <output.rs> (default stdout)
    -match <name>   Only output bindings for definitions from files
                    whose name contains <name>
                    If multiple -match options are provided, files
                    matching any rule are bound to.

    Options other than stated above are passed to clang.
";

/// How the program is used: what it prints for a reader.
pub fn print_usage(bin: &str) -> (r: String)
    ensures
        r@ == "Usage: "@ + bin@ + " [options] input.h"@ + OPTIONS@,
{
    "Usage: ".to_owned().concat(bin).concat(" [options] input.h").concat(OPTIONS)
}

/// An output file that could not be opened: which of the files named with
/// `-o`, counted from zero, and why.
#[derive(Debug)]
pub struct OpenFailure {
    pub nth: usize,
    pub message: String,
}

/// What a command line asks for: its usage, a run with arguments for clang, or
/// nothing, with the reason.
pub enum ParsedArgs {
    Usage,
    Run(Vec<String>, BindCtx),
    Fail(String),
}

/// What the options of a command line amount to.
#[verifier::ext_equal]
pub struct Settings {
    /// The arguments for clang.
    pub clang_args: Seq<Seq<char>>,
    pub patterns: Seq<Seq<char>>,
    pub link: Seq<char>,
    /// The output files, in the order in which they are opened.
    pub outputs: Seq<Seq<char>>,
}

/// Where the reading of a command line ends.
#[derive(Clone, Copy, Debug, PartialEq, Eq, Structural)]
pub enum ScanEnd {
    /// At its end.
    Done,
    /// At a request for help.
    Help,
    /// At an output file that could not be opened.
    Failed,
    /// At an option that lacks its operand.
    Overrun,
}

/// Whether an argument asks for help.
pub open spec fn is_help(arg: Seq<char>) -> bool {
    arg == "--help"@ || arg == "-h"@
}

/// Whether an argument is an option that takes the next one as its operand.
pub open spec fn takes_operand(arg: Seq<char>) -> bool {
    arg == "-o"@ || arg == "-l"@ || arg == "-match"@
}

/// Whether an argument is an option of the program's own.
pub open spec fn is_option(arg: Seq<char>) -> bool {
    is_help(arg) || takes_operand(arg)
}

/// The settings of a command line without options.
pub open spec fn no_settings() -> Settings {
    Settings { clang_args: seq![], patterns: seq![], link: seq![], outputs: seq![] }
}

/// The settings after an option with its operand.
pub open spec fn with_option(acc: Settings, option: Seq<char>, operand: Seq<char>) -> Settings {
    if option == "-o"@ {
        Settings { outputs: acc.outputs.push(operand), ..acc }
    } else if option == "-l"@ {
        Settings { link: operand, ..acc }
    } else {
        Settings { patterns: acc.patterns.push(operand), ..acc }
    }
}

/// The settings after an argument for clang.
pub open spec fn with_clang_arg(acc: Settings, arg: Seq<char>) -> Settings {
    Settings { clang_args: acc.clang_args.push(arg), ..acc }
}

/// Where the reading of a command line ends from place `ix` on, and the
/// settings up to there; `failed` is the number of the output file that cannot
/// be opened.
pub open spec fn scan(
    args: Seq<Seq<char>>,
    ix: int,
    acc: Settings,
    failed: Option<nat>,
) -> (ScanEnd, Settings)
    decreases args.len() - ix,
{
    if ix < 0 || ix >= args.len() {
        (ScanEnd::Done, acc)
    } else if is_help(args[ix]) {
        (ScanEnd::Help, acc)
    } else if takes_operand(args[ix]) {
        if ix + 1 >= args.len() {
            (ScanEnd::Overrun, acc)
        } else if args[ix] == "-o"@ && failed == Some(acc.outputs.len()) {
            (ScanEnd::Failed, acc)
        } else {
            scan(args, ix + 2, with_option(acc, args[ix], args[ix + 1]), failed)
        }
    } else {
        scan(args, ix + 1, with_clang_arg(acc, args[ix]), failed)
    }
}

/// The reading of a whole command line.
pub open spec fn scan_all(args: Seq<Seq<char>>, failed: Option<nat>) -> (ScanEnd, Settings) {
    scan(args, 0, no_settings(), failed)
}

/// The number of the output file that cannot be opened.
pub open spec fn failed_output(failure: Option<OpenFailure>) -> Option<nat> {
    match failure {
        Some(f) => Some(f.nth as nat),
        None => None,
    }
}

/// Where the bindings go: the file that was opened last.
pub open spec fn destination(outputs: Seq<Seq<char>>) -> Option<Seq<char>> {
    if outputs.len() == 0 {
        None
    } else {
        Some(outputs.last())
    }
}

struct Scan {
    end: ScanEnd,
    clang_args: Vec<String>,
    pat: Vec<String>,
    link: String,
    outputs: Vec<String>,
}

spec fn settings_of(s: Scan) -> Settings {
    Settings {
        clang_args: views(s.clang_args@),
        patterns: views(s.pat@),
        link: s.link@,
        outputs: views(s.outputs@),
    }
}

fn scan_args(args: &Vec<String>, failed: Option<usize>) -> (r: Scan)
    ensures
        (r.end, settings_of(r)) == scan_all(
            views(args@),
            match failed {
                Some(n) => Some(n as nat),
                None => None,
            },
        ),
{
    let ghost all = views(args@);
    let ghost stop: Option<nat> = match failed {
        Some(n) => Some(n as nat),
        None => None,
    };
    let mut r: Scan = Scan {
        end: ScanEnd::Done,
        clang_args: Vec::new(),
        pat: Vec::new(),
        link: String::new(),
        outputs: Vec::new(),
    };
    assert(settings_of(r) =~= no_settings());
    let mut ix: usize = 0;
    while ix < args.len()
        invariant
            all == views(args@),
            stop == (match failed {
                Some(n) => Some(n as nat),
                None => None::<nat>,
            }),
            ix <= args@.len(),
            r.end == ScanEnd::Done,
            scan_all(all, stop) == scan(all, ix as int, settings_of(r), stop),
        decreases args.len() - ix,
    {
        let arg: &str = args[ix].as_str();
        let ghost acc = settings_of(r);
        if same_text(arg, "--help") || same_text(arg, "-h") {
            r.end = ScanEnd::Help;
            return r;
        }
        let is_output: bool = same_text(arg, "-o");
        let is_link: bool = same_text(arg, "-l");
        if is_output || is_link || same_text(arg, "-match") {
            if ix + 1 >= args.len() {
                r.end = ScanEnd::Overrun;
                return r;
            }
            let operand: String = args[ix + 1].clone();
            if is_output {
                if let Some(n) = failed {
                    if n == r.outputs.len() {
                        r.end = ScanEnd::Failed;
                        return r;
                    }
                }
                r.outputs.push(operand);
            } else if is_link {
                r.link = operand;
            } else {
                r.pat.push(operand);
            }
            assert(settings_of(r) =~= with_option(acc, all[ix as int], all[ix + 1]));
            ix += 2;
        } else {
            r.clang_args.push(args[ix].clone());
            assert(settings_of(r) =~= with_clang_arg(acc, all[ix as int]));
            ix += 1;
        }
    }
    r
}

/// The output files that a command line names, in the order in which they are
/// to be opened.
pub fn output_files(args: &Vec<String>) -> (r: Vec<String>)
    ensures
        views(r@) == scan_all(views(args@), None).1.outputs,
{
    scan_args(args, None).outputs
}

/// Whether the reading of a command line comes to an option that lacks its
/// operand.
pub fn operand_missing(args: &Vec<String>, failure: &Option<OpenFailure>) -> (r: bool)
    ensures
        r == (scan_all(views(args@), failed_output(*failure)).0 == ScanEnd::Overrun),
{
    let failed: Option<usize> = match failure {
        Some(f) => Some(f.nth),
        None => None,
    };
    scan_args(args, failed).end == ScanEnd::Overrun
}

/// What a command line without the program's name asks for. `failure` tells
/// which output file could not be opened, if one could not.
pub fn parse_args(
    args: &Vec<String>,
    keywords: &Vec<String>,
    failure: Option<OpenFailure>,
) -> (r: ParsedArgs)
    requires
        scan_all(views(args@), failed_output(failure)).0 != ScanEnd::Overrun,
    ensures
        ({
            let (end, settings) = scan_all(views(args@), failed_output(failure));
            match r {
                ParsedArgs::Usage => args@.len() == 0 || end == ScanEnd::Help,
                ParsedArgs::Fail(message) => {
                    &&& end == ScanEnd::Failed
                    &&& message == failure->0.message
                },
                ParsedArgs::Run(clang_args, ctx) => {
                    &&& args@.len() != 0
                    &&& end == ScanEnd::Done
                    &&& views(clang_args@) == settings.clang_args
                    &&& ctx@ == fresh(
                        settings.patterns,
                        settings.link,
                        destination(settings.outputs),
                        views(keywords@).to_set(),
                    )
                },
            }
        }),
{
    if args.len() == 0 {
        return ParsedArgs::Usage;
    }
    let failed: Option<usize> = match &failure {
        Some(f) => Some(f.nth),
        None => None,
    };
    let scanned: Scan = scan_args(args, failed);
    if scanned.end == ScanEnd::Help {
        return ParsedArgs::Usage;
    }
    if scanned.end == ScanEnd::Failed {
        if let Some(f) = failure {
            return ParsedArgs::Fail(f.message);
        }
    }
    proof {
        scan_fails_on_failure(views(args@), 0, no_settings());
    }
    let out_file: Option<String> = if scanned.outputs.len() == 0 {
        None
    } else {
        Some(scanned.outputs[scanned.outputs.len() - 1].clone())
    };
    ParsedArgs::Run(
        scanned.clang_args,
        BindCtx::new(scanned.pat, scanned.link, out_file, keywords),
    )
}

/// Where every output file can be opened, the reading does not end at one.
pub proof fn scan_fails_on_failure(args: Seq<Seq<char>>, ix: int, acc: Settings)
    ensures
        scan(args, ix, acc, None).0 != ScanEnd::Failed,
    decreases args.len() - ix,
{
    if 0 <= ix < args.len() && !is_help(args[ix]) {
        if takes_operand(args[ix]) {
            if ix + 1 < args.len() {
                scan_fails_on_failure(
                    args,
                    ix + 2,
                    with_option(acc, args[ix], args[ix + 1]),
                );
            }
        } else {
            scan_fails_on_failure(args, ix + 1, with_clang_arg(acc, args[ix]));
        }
    }
}

} // verus!
