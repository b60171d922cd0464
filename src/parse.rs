//! The command line: one of the mutually exclusive commands, the length of
//! generated passwords, and an optional store file as the last argument.
use vstd::prelude::*;
use crate::locale::LangStrings;
use crate::select::{decimal_value, is_decimal, parse_usize};
use crate::text::{is_dashed, starts_with_dash, str_eq};

verus! {

/// The shortest password length accepted on the command line.
pub const MIN_PW_LENGTH: usize = 8;

/// The longest password length accepted on the command line.
pub const MAX_PW_LENGTH: usize = 32;

/// What the program is asked to do.
#[derive(Debug, PartialEq, Eq)]
pub enum CommandsOptions {
    /// Show a help text.
    Help(String),
    /// Show a version text.
    Version(String),
    /// Find entries by pattern, to copy a secret.
    Find(String),
    /// Delete an entry found by pattern.
    Delete(String),
    /// Add an entry with a generated password, for a description.
    New(String),
    /// Add an entry: description, password.
    Add(String, String),
    /// Print a generated password.
    GeneratePassword,
    /// No command yet.
    NoCommand,
}

/// A command with its texts as character sequences.
pub enum CommandView {
    Help(Seq<char>),
    Version(Seq<char>),
    Find(Seq<char>),
    Delete(Seq<char>),
    New(Seq<char>),
    Add(Seq<char>, Seq<char>),
    GeneratePassword,
    NoCommand,
}

impl View for CommandsOptions {
    type V = CommandView;

    open spec fn view(&self) -> CommandView {
        match self {
            CommandsOptions::Help(s) => CommandView::Help(s@),
            CommandsOptions::Version(s) => CommandView::Version(s@),
            CommandsOptions::Find(s) => CommandView::Find(s@),
            CommandsOptions::Delete(s) => CommandView::Delete(s@),
            CommandsOptions::New(s) => CommandView::New(s@),
            CommandsOptions::Add(d, p) => CommandView::Add(d@, p@),
            CommandsOptions::GeneratePassword => CommandView::GeneratePassword,
            CommandsOptions::NoCommand => CommandView::NoCommand,
        }
    }
}

impl CommandsOptions {
    /// A command has been given.
    pub fn is_some(&self) -> (r: bool)
        ensures
            r == !(self is NoCommand),
    {
        match self {
            CommandsOptions::NoCommand => false,
            _ => true,
        }
    }
}

/// The parsed command line.
#[derive(Debug, PartialEq, Eq)]
pub struct Config {
    pub command: CommandsOptions,
    pub password_length: Option<usize>,
    pub output_file: Option<String>,
}

/// Where a scan of the options stands: failed with a message, or done with a
/// command, a length, and the positions of the arguments that no option took.
pub enum ArgScan {
    Failed(Seq<char>),
    Done(CommandView, Option<usize>, Seq<usize>),
}

pub open spec fn is_option(a: Seq<char>, short: Seq<char>, long: Seq<char>) -> bool {
    a == short || a == long
}

/// Scans the options from position `i`: `-l`/`--long` takes a length in
/// `[8, 32]`, given once; `-f`/`--find`, `-d`/`--del` and `-n`/`--new` take one
/// value and `-a`/`--add` two, and only one of them may stand; any other
/// argument is passed over and its position kept.
pub open spec fn scan_args(
    args: Seq<Seq<char>>,
    i: int,
    cmd: CommandView,
    len: Option<usize>,
    unknown: Seq<usize>,
    loc: LangStrings,
) -> ArgScan
    decreases args.len() - i,
{
    if i < 1 || i >= args.len() {
        ArgScan::Done(cmd, len, unknown)
    } else {
        let a = args[i];
        if is_option(a, "-l"@, "--long"@) {
            if i + 1 >= args.len() {
                ArgScan::Failed("-l/--long : "@ + loc.manque_args@)
            } else if !is_decimal(args[i + 1]) || decimal_value(args[i + 1]) > usize::MAX {
                ArgScan::Failed(loc.err_opt_l_int@)
            } else if len is Some {
                ArgScan::Failed(loc.err_opt_l_1fois@)
            } else if decimal_value(args[i + 1]) < MIN_PW_LENGTH || decimal_value(args[i + 1])
                > MAX_PW_LENGTH {
                ArgScan::Failed(loc.err_opt_l_bound@)
            } else {
                scan_args(
                    args,
                    i + 2,
                    cmd,
                    Some(decimal_value(args[i + 1]) as usize),
                    unknown,
                    loc,
                )
            }
        } else if is_option(a, "-f"@, "--find"@) || is_option(a, "-d"@, "--del"@) || is_option(
            a,
            "-n"@,
            "--new"@,
        ) {
            if !(cmd is NoCommand) {
                ArgScan::Failed(loc.comm_mut_excl@)
            } else if i + 1 >= args.len() {
                ArgScan::Failed(
                    if is_option(a, "-f"@, "--find"@) {
                        "-f/--find : "@
                    } else if is_option(a, "-d"@, "--del"@) {
                        "-d/--del : "@
                    } else {
                        "-n/--new : "@
                    } + loc.manque_args@,
                )
            } else {
                let c = if is_option(a, "-f"@, "--find"@) {
                    CommandView::Find(args[i + 1])
                } else if is_option(a, "-d"@, "--del"@) {
                    CommandView::Delete(args[i + 1])
                } else {
                    CommandView::New(args[i + 1])
                };
                scan_args(args, i + 2, c, len, unknown, loc)
            }
        } else if is_option(a, "-a"@, "--add"@) {
            if !(cmd is NoCommand) {
                ArgScan::Failed(loc.comm_mut_excl@)
            } else if i + 2 >= args.len() {
                ArgScan::Failed("-a/--add : "@ + loc.manque_args@)
            } else {
                scan_args(
                    args,
                    i + 3,
                    CommandView::Add(args[i + 1], args[i + 2]),
                    len,
                    unknown,
                    loc,
                )
            }
        } else {
            scan_args(args, i + 1, cmd, len, unknown.push(i as usize), loc)
        }
    }
}

/// The parsed command line (command, length, file), or the message of the
/// first error. With no arguments: generate a password. A first argument
/// `-h`, `--help`, `-ver` or `--version` asks for a help or version text. Else
/// the first argument must be an option; after the options, the last argument,
/// where no option took it and it does not start with `-`, names the file;
/// any other argument left over is an error; and without a command, a length
/// or a file asks for a generated password.
pub open spec fn parse_spec(args: Seq<Seq<char>>, loc: LangStrings) -> Result<
    (CommandView, Option<usize>, Option<Seq<char>>),
    Seq<char>,
> {
    let n = args.len();
    if n <= 1 {
        Ok((CommandView::GeneratePassword, None, None))
    } else if args[1] == "-h"@ {
        Ok((CommandView::Help(loc.usage@), None, None))
    } else if args[1] == "--help"@ {
        Ok((CommandView::Help(loc.options@), None, None))
    } else if args[1] == "-ver"@ {
        Ok((CommandView::Version(loc.ver@), None, None))
    } else if args[1] == "--version"@ {
        Ok((CommandView::Version(loc.ver_desc@), None, None))
    } else if !starts_with_dash(args[1]) {
        Err(loc.err_valid_args@)
    } else {
        match scan_args(args, 1, CommandView::NoCommand, None, Seq::empty(), loc) {
            ArgScan::Failed(e) => Err(e),
            ArgScan::Done(cmd, len, unknown) => {
                let last = n - 1;
                let takes_file = unknown.len() > 0 && unknown.last() == last && !starts_with_dash(
                    args[last],
                );
                let rest = if takes_file {
                    unknown.drop_last()
                } else {
                    unknown
                };
                let file = if takes_file {
                    Some(args[last])
                } else {
                    None
                };
                if rest.len() > 0 {
                    Err(loc.err_bad_arg@ + " : "@ + args[rest[0] as int])
                } else if cmd is NoCommand {
                    if len is Some || file is Some {
                        Ok((CommandView::GeneratePassword, len, file))
                    } else {
                        Err(loc.err_valid_args@)
                    }
                } else {
                    Ok((cmd, len, file))
                }
            },
        }
    }
}

pub open spec fn option_view(o: Option<String>) -> Option<Seq<char>> {
    match o {
        Some(s) => Some(s@),
        None => None,
    }
}

/// The result of the parse matches its description.
pub open spec fn parse_matches(r: Result<Config, String>, args: Seq<Seq<char>>, loc: LangStrings) -> bool {
    match (r, parse_spec(args, loc)) {
        (Ok(c), Ok((cmd, len, file))) => c.command@ == cmd && c.password_length == len
            && option_view(c.output_file) == file,
        (Err(e), Err(m)) => e@ == m,
        _ => false,
    }
}

/// The message `label` followed by `text`.
fn joined(label: &str, text: &str) -> (r: String)
    ensures
        r@ == label@ + text@,
{
    let mut r = label.to_owned();
    r.append(text);
    r
}

/// Parses the command line `args`, whose first element is the program's name,
/// into a command, a password length and a store file; an error carries its
/// message in the language of `mdp_locale`.
pub fn parse_args(args: &Vec<String>, mdp_locale: &LangStrings) -> (r: Result<Config, String>)
    ensures
        parse_matches(r, args.deep_view(), *mdp_locale),
{
    let ghost a = args.deep_view();
    let ghost loc = *mdp_locale;
    let n = args.len();
    if n <= 1 {
        return Ok(
            Config {
                command: CommandsOptions::GeneratePassword,
                password_length: None,
                output_file: None,
            },
        );
    }
    let first = args[1].as_str();
    assert(a[1] == first@);
    let help = if str_eq(first, "-h") {
        Some(CommandsOptions::Help(mdp_locale.usage.to_owned()))
    } else if str_eq(first, "--help") {
        Some(CommandsOptions::Help(mdp_locale.options.to_owned()))
    } else if str_eq(first, "-ver") {
        Some(CommandsOptions::Version(mdp_locale.ver.to_owned()))
    } else if str_eq(first, "--version") {
        Some(CommandsOptions::Version(mdp_locale.ver_desc.to_owned()))
    } else {
        None
    };
    if let Some(command) = help {
        return Ok(Config { command, password_length: None, output_file: None });
    }
    if !is_dashed(first) {
        return Err(mdp_locale.err_valid_args.to_owned());
    }
    let mut command = CommandsOptions::NoCommand;
    let mut password_length: Option<usize> = None;
    let mut unknown: Vec<usize> = Vec::new();
    let mut i: usize = 1;
    while i < n
        invariant
            1 <= i <= n,
            n == args.len(),
            a == args.deep_view(),
            loc == *mdp_locale,
            a.len() > 1,
            a[1] != "-h"@ && a[1] != "--help"@ && a[1] != "-ver"@ && a[1] != "--version"@,
            starts_with_dash(a[1]),
            forall|k: int| 0 <= k < unknown.len() ==> #[trigger] unknown@[k] < i,
            scan_args(a, i as int, command@, password_length, unknown@, loc) == scan_args(
                a,
                1,
                CommandView::NoCommand,
                None,
                Seq::empty(),
                loc,
            ),
        decreases n - i,
    {
        let arg = args[i].as_str();
        assert(a[i as int] == arg@);
        if str_eq(arg, "-l") || str_eq(arg, "--long") {
            if i + 1 >= n {
                return Err(joined("-l/--long : ", mdp_locale.manque_args));
            }
            assert(a[i + 1] == args@[i + 1]@);
            match parse_usize(args[i + 1].as_str()) {
                None => {
                    return Err(mdp_locale.err_opt_l_int.to_owned());
                },
                Some(len) => {
                    if password_length.is_some() {
                        return Err(mdp_locale.err_opt_l_1fois.to_owned());
                    }
                    if len < MIN_PW_LENGTH || len > MAX_PW_LENGTH {
                        return Err(mdp_locale.err_opt_l_bound.to_owned());
                    }
                    password_length = Some(len);
                    i = i + 2;
                },
            }
        } else if str_eq(arg, "-f") || str_eq(arg, "--find") || str_eq(arg, "-d") || str_eq(
            arg,
            "--del",
        ) || str_eq(arg, "-n") || str_eq(arg, "--new") {
            let is_find = str_eq(arg, "-f") || str_eq(arg, "--find");
            let is_del = str_eq(arg, "-d") || str_eq(arg, "--del");
            if command.is_some() {
                return Err(mdp_locale.comm_mut_excl.to_owned());
            }
            if i + 1 >= n {
                let label = if is_find {
                    "-f/--find : "
                } else if is_del {
                    "-d/--del : "
                } else {
                    "-n/--new : "
                };
                return Err(joined(label, mdp_locale.manque_args));
            }
            assert(a[i + 1] == args@[i + 1]@);
            let value = args[i + 1].clone();
            command = if is_find {
                CommandsOptions::Find(value)
            } else if is_del {
                CommandsOptions::Delete(value)
            } else {
                CommandsOptions::New(value)
            };
            i = i + 2;
        } else if str_eq(arg, "-a") || str_eq(arg, "--add") {
            if command.is_some() {
                return Err(mdp_locale.comm_mut_excl.to_owned());
            }
            if n - i <= 2 {
                return Err(joined("-a/--add : ", mdp_locale.manque_args));
            }
            assert(a[i + 1] == args@[i + 1]@);
            assert(a[i + 2] == args@[i + 2]@);
            command = CommandsOptions::Add(args[i + 1].clone(), args[i + 2].clone());
            i = i + 3;
        } else {
            unknown.push(i);
            i = i + 1;
        }
    }
    let last = n - 1;
    assert(a[last as int] == args@[last as int]@);
    let takes_file = unknown.len() > 0 && unknown[unknown.len() - 1] == last && !is_dashed(
        args[last].as_str(),
    );
    let mut output_file: Option<String> = None;
    if takes_file {
        unknown.pop();
        output_file = Some(args[last].clone());
    }
    if unknown.len() > 0 {
        assert(unknown@[0] < n);
        assert(a[unknown@[0] as int] == args@[unknown@[0] as int]@);
        let message = joined(mdp_locale.err_bad_arg, " : ");
        return Err(joined(message.as_str(), args[unknown[0]].as_str()));
    }
    if !command.is_some() {
        if password_length.is_some() || output_file.is_some() {
            command = CommandsOptions::GeneratePassword;
        } else {
            return Err(mdp_locale.err_valid_args.to_owned());
        }
    }
    Ok(Config { command, password_length, output_file })
}

} // verus!
