//! The command line of the program: which options it has, and what a
//! parsed command line says about them. Parsing itself is `getopts`'s.

use vstd::prelude::*;
use vstd::string::is_ascii;
use getopts::{Fail, Matches, Options};
use crate::brightness::{get_brightness_method, method_of_name, BrightnessMethod};

verus! {

/// The options of a program, as `getopts` holds them.
#[verifier::external_type_specification]
#[verifier::external_body]
pub struct ExOptions(Options);

/// What `getopts` found on a command line.
#[verifier::external_type_specification]
#[verifier::external_body]
pub struct ExMatches(Matches);

/// Why `getopts` refused a command line.
#[verifier::external_type_specification]
#[verifier::external_body]
pub struct ExFail(Fail);

/// One option: its names, and whether it carries a value.
pub struct OptionSpec {
    pub short_name: Seq<char>,
    pub long_name: Seq<char>,
    pub takes_value: bool,
}

/// How often each name was given, with the value of each occurrence that
/// carried one.
pub type Occurrences = Map<Seq<char>, Seq<Option<Seq<char>>>>;

/// The options that were added, in order.
pub uninterp spec fn option_table(options: Options) -> Seq<OptionSpec>;

/// The options parse in the default style, and each of them was added
/// by `optopt` or by `optflag`, with both its names.
pub uninterp spec fn parses_plainly(options: Options) -> bool;

/// For every name that the options define, its occurrences on the
/// command line, in order.
pub uninterp spec fn matched(matches: Matches) -> Occurrences;

/// What parsing the arguments against a table of options gives: the
/// occurrences of every name, or nothing where the arguments are refused.
pub uninterp spec fn parse_outcome(table: Seq<OptionSpec>, args: Seq<Seq<char>>) -> Option<
    Occurrences,
>;

/// The names that a table of options defines.
pub open spec fn defined_names(table: Seq<OptionSpec>) -> Set<Seq<char>> {
    Set::new(
        |name: Seq<char>|
            exists|i: int|
                0 <= i < table.len() && (#[trigger] table[i].short_name == name
                    || table[i].long_name == name),
    )
}

/// The arguments as sequences of characters.
pub open spec fn args_view(args: &Vec<String>) -> Seq<Seq<char>> {
    Seq::new(args@.len(), |i: int| args@[i]@)
}

/// `Options::new`: no options yet, default parsing style.
#[verifier::external_body]
fn options_new() -> (options: Options)
    ensures
        option_table(options) == Seq::<OptionSpec>::empty(),
        parses_plainly(options),
{
    Options::new()
}

/// `Options::optopt`: adds an optional option that takes a value. It
/// panics unless the short name is one byte long or empty and the long
/// name is longer than one byte or empty; here both are asked for.
#[verifier::external_body]
fn options_optopt(options: &mut Options, short_name: &str, long_name: &str, desc: &str, hint: &str)
    requires
        short_name@.len() == 1,
        is_ascii(short_name),
        long_name@.len() >= 2,
    ensures
        option_table(*final(options)) == option_table(*old(options)).push(
            (OptionSpec { short_name: short_name@, long_name: long_name@, takes_value: true }),
        ),
        parses_plainly(*final(options)) == parses_plainly(*old(options)),
{
    options.optopt(short_name, long_name, desc, hint);
}

/// `Options::optflag`: adds an optional option that takes no value, with
/// the same demands on its names.
#[verifier::external_body]
fn options_optflag(options: &mut Options, short_name: &str, long_name: &str, desc: &str)
    requires
        short_name@.len() == 1,
        is_ascii(short_name),
        long_name@.len() >= 2,
    ensures
        option_table(*final(options)) == option_table(*old(options)).push(
            (OptionSpec { short_name: short_name@, long_name: long_name@, takes_value: false }),
        ),
        parses_plainly(*final(options)) == parses_plainly(*old(options)),
{
    options.optflag(short_name, long_name, desc);
}

/// `Options::parse`: the matches, which know every name of the table,
/// or the reason for which the arguments are refused. It panics on an
/// option without a name.
#[verifier::external_body]
fn options_parse(options: &Options, args: &Vec<String>) -> (parsed: Result<Matches, Fail>)
    requires
        parses_plainly(*options),
    ensures
        match parsed {
            Ok(matches) => parse_outcome(option_table(*options), args_view(args)) == Some(
                matched(matches),
            ) && matched(matches).dom() == defined_names(option_table(*options)),
            Err(_) => parse_outcome(option_table(*options), args_view(args)).is_none(),
        },
{
    options.parse(args)
}

/// `Options::usage`: the text that describes the options, under a
/// heading.
#[verifier::external_body]
fn options_usage(options: &Options, brief: &str) -> (usage: String) {
    options.usage(brief)
}

/// `Matches::opt_present`: whether a name was given at all. It panics on
/// a name that the options do not define.
#[verifier::external_body]
fn matches_opt_present(matches: &Matches, name: &str) -> (present: bool)
    requires
        matched(*matches).dom().contains(name@),
    ensures
        present == (matched(*matches)[name@].len() > 0),
{
    matches.opt_present(name)
}

/// `Matches::opt_str`: the value of the first occurrence of a name, if
/// it was given and carried one. It panics on a name that the options do
/// not define.
#[verifier::external_body]
fn matches_opt_str(matches: &Matches, name: &str) -> (value: Option<String>)
    requires
        matched(*matches).dom().contains(name@),
    ensures
        match value {
            Some(text) => first_value(matched(*matches), name@) == Some(text@),
            None => first_value(matched(*matches), name@).is_none(),
        },
{
    matches.opt_str(name)
}

/// The value of the first occurrence of a name, if there is one and it
/// carries a value.
pub open spec fn first_value(occurrences: Occurrences, name: Seq<char>) -> Option<Seq<char>> {
    if occurrences.dom().contains(name) && occurrences[name].len() > 0 {
        occurrences[name][0]
    } else {
        None
    }
}

/// A name was given at least once.
pub open spec fn given(occurrences: Occurrences, name: Seq<char>) -> bool {
    occurrences.dom().contains(name) && occurrences[name].len() > 0
}

/// The options of the program: the brightness method and the image file,
/// which take a value, and the flags for inverting, for green output and
/// for help.
pub open spec fn program_options() -> Seq<OptionSpec> {
    seq![
        (OptionSpec { short_name: "m"@, long_name: "method"@, takes_value: true }),
        (OptionSpec { short_name: "f"@, long_name: "file"@, takes_value: true }),
        (OptionSpec { short_name: "i"@, long_name: "invert"@, takes_value: false }),
        (OptionSpec { short_name: "g"@, long_name: "green"@, takes_value: false }),
        (OptionSpec { short_name: "h"@, long_name: "help"@, takes_value: false })
    ]
}

/// A name is one of the program's options, short or long.
pub open spec fn is_program_name(name: Seq<char>) -> bool {
    defined_names(program_options()).contains(name)
}

/// Why no command line came out of the arguments, with the usage text to
/// show in either case.
#[derive(Debug)]
pub enum Rejection {
    /// The arguments are malformed.
    Malformed { failure: Fail, usage: String },
    /// Help was asked for.
    Help { usage: String },
}

/// Name of the brightness method used where none is given.
pub const DEFAULT_METHOD: &'static str = "average";

/// Path of the image rendered where none is given.
pub const DEFAULT_FILE: &'static str = "./kaiji_kun.jpg";

/// What a run of the program is asked to do.
pub struct RenderConfig {
    pub method: BrightnessMethod,
    pub file: String,
    pub invert: bool,
    pub in_green: bool,
}

/// The value of an option, or a default where it has none.
pub open spec fn value_or(occurrences: Occurrences, name: Seq<char>, default: Seq<char>) -> Seq<
    char,
> {
    match first_value(occurrences, name) {
        Some(text) => text,
        None => default,
    }
}

/// A parsed command line of the program.
pub struct CommandLine {
    matches: Matches,
}

impl View for CommandLine {
    type V = Occurrences;

    closed spec fn view(&self) -> Occurrences {
        matched(self.matches)
    }
}

/// The program's names are exactly these ten.
pub proof fn lemma_program_names(name: Seq<char>)
    ensures
        is_program_name(name) <==> (name == "m"@ || name == "method"@ || name == "f"@ || name
            == "file"@ || name == "i"@ || name == "invert"@ || name == "g"@ || name == "green"@
            || name == "h"@ || name == "help"@),
{
    let table = program_options();
    assert(table.len() == 5);
    if name == "m"@ || name == "method"@ {
        assert(table[0].short_name == name || table[0].long_name == name);
    }
    if name == "f"@ || name == "file"@ {
        assert(table[1].short_name == name || table[1].long_name == name);
    }
    if name == "i"@ || name == "invert"@ {
        assert(table[2].short_name == name || table[2].long_name == name);
    }
    if name == "g"@ || name == "green"@ {
        assert(table[3].short_name == name || table[3].long_name == name);
    }
    if name == "h"@ || name == "help"@ {
        assert(table[4].short_name == name || table[4].long_name == name);
    }
}

/// Whether two texts are the same.
fn same_text(left: &str, right: &str) -> (same: bool)
    ensures
        same == (left@ == right@),
{
    let left_text: String = left.to_owned();
    let right_text: String = right.to_owned();
    left_text == right_text
}

impl CommandLine {
    #[verifier::type_invariant]
    spec fn knows_program_names(self) -> bool {
        matched(self.matches).dom() == defined_names(program_options())
    }

    /// Parses the arguments of the program, its own name left out.
    ///
    /// Malformed arguments are rejected, and so is every command line
    /// that asks for help.
    pub fn new(args: &Vec<String>) -> (outcome: Result<CommandLine, Rejection>)
        ensures
            match parse_outcome(program_options(), args_view(args)) {
                None => outcome matches Err(Rejection::Malformed { .. }),
                Some(found) => if given(found, "h"@) {
                    outcome matches Err(Rejection::Help { .. })
                } else {
                    outcome matches Ok(command_line) && command_line@ == found
                },
            },
    {
        let mut opts = options_new();
        proof {
            reveal_strlit("m");
            reveal_strlit("method");
            reveal_strlit("f");
            reveal_strlit("file");
            reveal_strlit("i");
            reveal_strlit("invert");
            reveal_strlit("g");
            reveal_strlit("green");
            reveal_strlit("h");
            reveal_strlit("help");
        }
        options_optopt(&mut opts, "m", "method", "Brightness method", "Minmax or average");
        options_optopt(&mut opts, "f", "file", "Image file name", "File Name");
        options_optflag(&mut opts, "i", "invert", "Invert color");
        options_optflag(&mut opts, "g", "green", "Print in green");
        options_optflag(&mut opts, "h", "help", "Print help menu");
        assert(option_table(opts) =~= program_options());
        let parsed = options_parse(&opts, args);
        let usage = options_usage(&opts, "Usage: [options]");
        Self::from_outcome(parsed, usage)
    }

    /// Decides what a parse of the program's options leads to: a
    /// rejection with the usage text where the arguments were refused or
    /// help was asked for, a command line otherwise.
    pub fn from_outcome(parsed: Result<Matches, Fail>, usage: String) -> (outcome: Result<
        CommandLine,
        Rejection,
    >)
        requires
            parsed matches Ok(matches) ==> matched(matches).dom() == defined_names(
                program_options(),
            ),
        ensures
            match parsed {
                Err(failure) => outcome == Err::<CommandLine, Rejection>(
                    Rejection::Malformed { failure, usage },
                ),
                Ok(matches) => if given(matched(matches), "h"@) {
                    outcome == Err::<CommandLine, Rejection>(Rejection::Help { usage })
                } else {
                    outcome matches Ok(command_line) && command_line@ == matched(matches)
                },
            },
    {
        match parsed {
            Err(failure) => Err(Rejection::Malformed { failure, usage }),
            Ok(matches) => {
                proof {
                    lemma_program_names("h"@);
                }
                if matches_opt_present(&matches, "h") {
                    Err(Rejection::Help { usage })
                } else {
                    Ok(CommandLine { matches })
                }
            },
        }
    }

    /// Whether a name is one of the program's options: the names that
    /// `str_arg` and `is_present` answer for.
    pub fn defines(flag: &str) -> (defined: bool)
        ensures
            defined == is_program_name(flag@),
    {
        proof {
            lemma_program_names(flag@);
        }
        same_text(flag, "m") || same_text(flag, "method") || same_text(flag, "f") || same_text(
            flag,
            "file",
        ) || same_text(flag, "i") || same_text(flag, "invert") || same_text(flag, "g")
            || same_text(flag, "green") || same_text(flag, "h") || same_text(flag, "help")
    }

    /// The value given for an option, or the default where the option
    /// was not given or carried no value.
    pub fn str_arg(&self, flag: &str, default: &str) -> (value: String)
        requires
            is_program_name(flag@),
        ensures
            value@ == value_or(self@, flag@, default@),
    {
        proof {
            use_type_invariant(self);
        }
        match matches_opt_str(&self.matches, flag) {
            Some(text) => text,
            None => default.to_owned(),
        }
    }

    /// What the command line asks for, with the defaults for what it
    /// leaves open.
    pub fn config(&self) -> (config: RenderConfig)
        ensures
            config.method == method_of_name(value_or(self@, "m"@, DEFAULT_METHOD@)),
            config.file@ == value_or(self@, "f"@, DEFAULT_FILE@),
            config.invert == given(self@, "i"@),
            config.in_green == given(self@, "g"@),
    {
        proof {
            lemma_program_names("m"@);
            lemma_program_names("f"@);
            lemma_program_names("i"@);
            lemma_program_names("g"@);
        }
        let method_name = self.str_arg("m", DEFAULT_METHOD);
        let file = self.str_arg("f", DEFAULT_FILE);
        let invert = self.is_present("i");
        let in_green = self.is_present("g");
        RenderConfig { method: get_brightness_method(method_name.as_str()), file, invert, in_green }
    }

    /// Whether an option was given.
    pub fn is_present(&self, flag: &str) -> (present: bool)
        requires
            is_program_name(flag@),
        ensures
            present == given(self@, flag@),
    {
        proof {
            use_type_invariant(self);
        }
        matches_opt_present(&self.matches, flag)
    }
}

} // verus!
