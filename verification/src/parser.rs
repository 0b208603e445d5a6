//! From raw input to command invocations.

pub mod buffered;
pub mod command_line;
pub mod placeholders;
pub mod regex;

use self::buffered::BufferedInputLineParser;
use self::command_line::{argument_groups_of, first_command_and_args_of, CommandLineArgsParser};
use self::regex::{option_text, regex_compiles, InvalidRegex, RegexProcessor};
use crate::command_line_args::CommandLineArgs;
use crate::common::OwnedCommandAndArgs;
use crate::text::{copy_tokens, join_tokens, join_with_spaces};
use vstd::prelude::*;

verus! {

/// The shell and its flag, in front of the command, in shell mode.
pub open spec fn shell_prefix(shell: bool, shell_path: Seq<char>) -> Option<Seq<Seq<char>>> {
    if shell {
        Some(seq![shell_path, "-c"@])
    } else {
        None
    }
}

/// The tokens that are started for a command: the command's own tokens, or,
/// in shell mode, the shell, its flag and the command as one string.
pub open spec fn command_tokens(
    shell: Option<Seq<Seq<char>>>,
    tokens: Seq<Seq<char>>,
) -> Seq<Seq<char>> {
    match shell {
        None => tokens,
        Some(prefix) => prefix.push(join_with_spaces(tokens)),
    }
}

/// The invocation for a command, or `None` if there is nothing to start. In
/// shell mode there is always something to start: the shell with its flag
/// and the joined tokens, which without tokens are the empty string.
pub open spec fn built_command(
    shell: Option<Seq<Seq<char>>>,
    tokens: Seq<Seq<char>>,
) -> Option<Seq<Seq<char>>> {
    if command_tokens(shell, tokens).len() == 0 {
        None
    } else {
        Some(command_tokens(shell, tokens))
    }
}

/// The tokens of an invocation that may be missing.
pub open spec fn command_view(command: Option<OwnedCommandAndArgs>) -> Option<Seq<Seq<char>>> {
    match command {
        None => None,
        Some(command) => Some(command@),
    }
}

/// The shell program and the flag that makes it run a command string; `None`
/// when commands are started directly.
pub struct ShellCommandAndArgs(Option<Vec<String>>);

impl View for ShellCommandAndArgs {
    type V = Option<Seq<Seq<char>>>;

    closed spec fn view(&self) -> Option<Seq<Seq<char>>> {
        match self.0 {
            None => None,
            Some(prefix) => Some(prefix.deep_view()),
        }
    }
}

impl ShellCommandAndArgs {
    /// The shell of the configuration with its flag, if shell mode is on.
    pub fn new(command_line_args: &CommandLineArgs) -> (shell: Self)
        ensures
            shell@ == shell_prefix(command_line_args.shell, command_line_args.shell_path@),
    {
        if command_line_args.shell {
            let mut prefix: Vec<String> = Vec::new();
            prefix.push(command_line_args.shell_path.clone());
            prefix.push(Self::shell_argument().to_owned());
            Self(Some(prefix))
        } else {
            Self(None)
        }
    }

    /// The flag that makes the shell run the string that follows.
    pub fn shell_argument() -> (flag: &'static str)
        ensures
            flag@ == "-c"@,
    {
        "-c"
    }
}

/// Makes the invocation for the tokens of one command: started directly, the
/// first token is the program; in shell mode the tokens are joined with
/// spaces and handed to the shell as one argument. Without shell mode, no
/// tokens make no invocation; in shell mode they make the invocation of the
/// shell with the empty string.
pub fn build_owned_command_and_args(
    shell_command_and_args: &ShellCommandAndArgs,
    command_and_args: Vec<String>,
) -> (command: Option<OwnedCommandAndArgs>)
    ensures
        command_view(command) == built_command(
            shell_command_and_args@,
            command_and_args.deep_view(),
        ),
{
    match &shell_command_and_args.0 {
        None => {
            match OwnedCommandAndArgs::try_from(command_and_args) {
                Ok(command) => Some(command),
                Err(_) => None,
            }
        },
        Some(prefix) => {
            let mut result = copy_tokens(prefix);
            let joined = join_tokens(&command_and_args);
            result.push(joined);
            match OwnedCommandAndArgs::try_from(result) {
                Ok(command) => Some(command),
                Err(_) => None,
            }
        },
    }
}

/// The parsers of one run, made from its configuration.
pub struct Parser {
    buffered_input_line_parser: BufferedInputLineParser,
    command_line_args: &'static CommandLineArgs,
}

impl Parser {
    /// The configuration that the parsers were made from.
    pub closed spec fn command_line_args(&self) -> &'static CommandLineArgs {
        self.command_line_args
    }

    /// The parser for the lines of buffered inputs.
    pub closed spec fn line_parser(&self) -> BufferedInputLineParser {
        self.buffered_input_line_parser
    }

    /// What the parsers owe to the configuration.
    pub open spec fn wf(&self) -> bool {
        let args = self.command_line_args();
        let lines = self.line_parser();
        &&& lines.pattern() == option_text(args.regex)
        &&& lines.split_whitespace() == !args.null_separator
        &&& lines.prepend_command_and_args() == args.command_and_initial_arguments.deep_view()
        &&& lines.shell() == shell_prefix(args.shell, args.shell_path@)
    }

    /// Makes the parsers for a configuration. This fails exactly when a
    /// capture pattern is configured that does not compile.
    pub fn new(command_line_args: &'static CommandLineArgs) -> (result: Result<Self, InvalidRegex>)
        ensures
            result is Err <==> (command_line_args.regex matches Some(pattern) && !regex_compiles(
                pattern@,
            )),
            result matches Ok(parser) ==> parser.wf() && parser.command_line_args()
                == command_line_args,
            result matches Err(error) ==> command_line_args.regex matches Some(pattern)
                && error.pattern@ == pattern@,
    {
        let regex_processor = match RegexProcessor::new(command_line_args) {
            Ok(regex_processor) => regex_processor,
            Err(error) => {
                return Err(error);
            },
        };
        let buffered_input_line_parser = BufferedInputLineParser::new(
            command_line_args,
            regex_processor,
        );
        Ok(Self { buffered_input_line_parser, command_line_args })
    }

    /// The parser for the lines of buffered inputs.
    pub fn buffered_input_line_parser(&self) -> (parser: &BufferedInputLineParser)
        ensures
            *parser == self.line_parser(),
    {
        &self.buffered_input_line_parser
    }

    /// A parser for the commands on the command line.
    pub fn command_line_args_parser(&self) -> (parser: CommandLineArgsParser)
        ensures
            parser.first_command_and_args() == first_command_and_args_of(
                self.command_line_args().command_and_initial_arguments.deep_view(),
            ),
            parser.argument_groups() == argument_groups_of(
                self.command_line_args().command_and_initial_arguments.deep_view(),
            ),
            parser.shell() == shell_prefix(
                self.command_line_args().shell,
                self.command_line_args().shell_path@,
            ),
    {
        CommandLineArgsParser::new(self.command_line_args)
    }
}

} // verus!
