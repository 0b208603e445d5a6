//! Commands from the lines of a buffered input.

use crate::command_line_args::CommandLineArgs;
use crate::common::OwnedCommandAndArgs;
use crate::parser::regex::{processed_string, RegexProcessor};
use crate::parser::{
    build_owned_command_and_args, built_command, command_view, shell_prefix, ShellCommandAndArgs,
};
use crate::text::{copy_tokens, is_skipped, is_skipped_line, split_words, words};
use std::borrow::Cow;
use vstd::prelude::*;
use vstd::string::StringSliceAdditionalSpecFns;
use vstd::utf8::{decode_utf8, encode_utf8_decode_utf8, valid_utf8};

verus! {

#[verifier::external_type_specification]
#[verifier::external_body]
pub struct ExUtf8Error(std::str::Utf8Error);

/// `std::str::from_utf8`: succeeds exactly on well-formed UTF-8, and the text
/// it returns is encoded by the bytes it was given.
pub assume_specification[ std::str::from_utf8 ](bytes: &[u8]) -> (result: Result<
    &str,
    std::str::Utf8Error,
>)
    ensures
        result is Ok <==> valid_utf8(bytes@),
        result matches Ok(text) ==> text.spec_bytes() == bytes@,
;

/// The tokens of the command for one input line.
///
/// Without a capture pattern the line is appended to the configured command:
/// word by word where whitespace splits, else as a single argument. With a
/// capture pattern the tokens are the configured command with the captures
/// of the line substituted into each token.
pub open spec fn line_tokens(
    split_whitespace: bool,
    prepend: Seq<Seq<char>>,
    pattern: Option<Seq<char>>,
    line: Seq<char>,
) -> Seq<Seq<char>> {
    if pattern is None {
        prepend + if split_whitespace {
            words(line)
        } else {
            seq![line]
        }
    } else {
        prepend.map_values(|argument: Seq<char>| processed_string(pattern, argument, line))
    }
}

/// The command for one input line: none for blank lines and comments, else
/// what the tokens of the line make.
pub open spec fn parsed_line(
    split_whitespace: bool,
    prepend: Seq<Seq<char>>,
    shell: Option<Seq<Seq<char>>>,
    pattern: Option<Seq<char>>,
    line: Seq<char>,
) -> Option<Seq<Seq<char>>> {
    if is_skipped_line(line) {
        None
    } else {
        built_command(shell, line_tokens(split_whitespace, prepend, pattern, line))
    }
}

/// Turns the lines of a buffered input into commands.
pub struct BufferedInputLineParser {
    split_whitespace: bool,
    prepend_command_and_args: Vec<String>,
    shell_command_and_args: ShellCommandAndArgs,
    regex_processor: RegexProcessor,
}

impl BufferedInputLineParser {
    /// Whether a line is split into words at whitespace.
    pub closed spec fn split_whitespace(&self) -> bool {
        self.split_whitespace
    }

    /// The configured command that every line is combined with.
    pub closed spec fn prepend_command_and_args(&self) -> Seq<Seq<char>> {
        self.prepend_command_and_args.deep_view()
    }

    /// The shell and its flag, in shell mode.
    pub closed spec fn shell(&self) -> Option<Seq<Seq<char>>> {
        self.shell_command_and_args@
    }

    /// The capture pattern, if one is configured.
    pub closed spec fn pattern(&self) -> Option<Seq<char>> {
        self.regex_processor@
    }

    /// The command that this parser makes of a line.
    pub open spec fn command_for(&self, line: Seq<char>) -> Option<Seq<Seq<char>>> {
        parsed_line(
            self.split_whitespace(),
            self.prepend_command_and_args(),
            self.shell(),
            self.pattern(),
            line,
        )
    }

    /// The command that this parser makes of an input unit: none if the unit
    /// is not UTF-8 text, else the command for the line it encodes.
    pub open spec fn command_for_segment(&self, segment: Seq<u8>) -> Option<Seq<Seq<char>>> {
        if valid_utf8(segment) {
            self.command_for(decode_utf8(segment))
        } else {
            None
        }
    }

    /// A parser for the configuration: lines split at whitespace unless input
    /// units end at NUL, and are combined with the configured command.
    pub fn new(command_line_args: &CommandLineArgs, regex_processor: RegexProcessor) -> (parser:
        Self)
        ensures
            parser.split_whitespace() == !command_line_args.null_separator,
            parser.prepend_command_and_args()
                == command_line_args.command_and_initial_arguments.deep_view(),
            parser.shell() == shell_prefix(command_line_args.shell, command_line_args.shell_path@),
            parser.pattern() == regex_processor@,
    {
        let split_whitespace = !command_line_args.null_separator;
        let prepend_command_and_args = copy_tokens(
            &command_line_args.command_and_initial_arguments,
        );
        let shell_command_and_args = ShellCommandAndArgs::new(command_line_args);
        Self { split_whitespace, prepend_command_and_args, shell_command_and_args, regex_processor }
    }

    /// The command for one input unit: none if the unit is not UTF-8 text,
    /// else the command for the line it encodes.
    pub fn parse_segment(&self, segment: Vec<u8>) -> (command: Option<OwnedCommandAndArgs>)
        ensures
            command_view(command) == self.command_for_segment(segment@),
    {
        match std::str::from_utf8(segment.as_slice()) {
            Ok(input_line) => {
                proof {
                    encode_utf8_decode_utf8(input_line@);
                }
                self.parse_line(input_line)
            },
            Err(_) => None,
        }
    }

    /// The command for one line of text. Blank lines and comments give none;
    /// so does a line whose tokens are none, unless the shell runs it.
    pub fn parse_line(&self, input_line: &str) -> (command: Option<OwnedCommandAndArgs>)
        ensures
            command_view(command) == self.command_for(input_line@),
            is_skipped_line(input_line@) ==> command is None,
    {
        if is_skipped(input_line) {
            return None;
        }
        let cmd_and_args = if !self.regex_processor.regex_mode() {
            let mut line_args = if self.split_whitespace {
                split_words(input_line)
            } else {
                let mut whole: Vec<String> = Vec::new();
                whole.push(input_line.to_owned());
                assert(whole.deep_view() == seq![input_line@]);
                whole
            };
            let ghost appended = line_args.deep_view();
            let mut cmd_and_args = copy_tokens(&self.prepend_command_and_args);
            cmd_and_args.append(&mut line_args);
            assert(cmd_and_args.deep_view() == self.prepend_command_and_args.deep_view()
                + appended);
            cmd_and_args
        } else {
            self.process_arguments(input_line)
        };
        build_owned_command_and_args(&self.shell_command_and_args, cmd_and_args)
    }

    /// The configured command with the captures of the line substituted into
    /// each of its tokens.
    fn process_arguments(&self, input_line: &str) -> (processed: Vec<String>)
        ensures
            processed.deep_view() == self.prepend_command_and_args.deep_view().map_values(
                |argument: Seq<char>|
                    processed_string(self.regex_processor@, argument, input_line@),
            ),
    {
        let ghost substitute = |argument: Seq<char>|
            processed_string(self.regex_processor@, argument, input_line@);
        let ghost template = self.prepend_command_and_args.deep_view();
        let mut processed: Vec<String> = Vec::new();
        let mut i: usize = 0;
        while i < self.prepend_command_and_args.len()
            invariant
                i <= self.prepend_command_and_args.len(),
                template == self.prepend_command_and_args.deep_view(),
                substitute == |argument: Seq<char>|
                    processed_string(self.regex_processor@, argument, input_line@),
                processed.deep_view() == template.take(i as int).map_values(substitute),
            decreases self.prepend_command_and_args.len() - i,
        {
            let argument = self.regex_processor.process_string(
                self.prepend_command_and_args[i].as_str(),
                input_line,
            );
            let token = match argument {
                Cow::Borrowed(borrowed) => borrowed.to_owned(),
                Cow::Owned(owned) => owned,
            };
            processed.push(token);
            assert(template.take(i + 1).map_values(substitute) == template.take(
                i as int,
            ).map_values(substitute).push(substitute(template[i as int])));
            i += 1;
        }
        processed
    }
}

} // verus!
