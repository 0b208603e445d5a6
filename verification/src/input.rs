//! Where commands come from: the inputs of a run, the numbering of what is
//! read from them, and the messages that carry commands to the executor.

use crate::command_line_args::CommandLineArgs;
use crate::common::OwnedCommandAndArgs;
use crate::parser::buffered::BufferedInputLineParser;
use crate::parser::command_line::{expanded_commands, CommandLineArgsParser};
use vstd::prelude::*;

verus! {

/// An input that is read unit by unit.
#[derive(Debug, Clone, Copy)]
pub enum BufferedInput {
    Stdin,
    File { file_name: &'static str },
}

/// An input of the run.
#[derive(Debug, Clone, Copy)]
pub enum Input {
    Buffered(BufferedInput),
    CommandLineArgs,
}

/// The place a command came from: the input and the number of the unit in
/// it, counted from one.
#[derive(Debug)]
pub struct InputLineNumber {
    pub input: Input,
    pub line_number: usize,
}

/// A command on its way to the executor, with the place it came from.
#[derive(Debug)]
pub struct InputMessage {
    pub command_and_args: OwnedCommandAndArgs,
    pub input_line_number: InputLineNumber,
}

/// The name that stands for standard input in the list of inputs.
pub open spec fn is_stdin_name(name: Seq<char>) -> bool {
    name == "-"@
}

/// `input` is the input that `name` stands for in the list of inputs:
/// standard input for `-`, else the file of that name.
pub open spec fn is_named_input(input: Input, name: Seq<char>) -> bool {
    if is_stdin_name(name) {
        input == Input::Buffered(BufferedInput::Stdin)
    } else {
        input matches Input::Buffered(BufferedInput::File { file_name }) && file_name@ == name
    }
}

/// `inputs` are the inputs of a run. With the commands on the command line
/// that is the only input. Else the named inputs are read in order, and
/// standard input alone if none is named.
pub open spec fn is_input_list(
    inputs: Seq<Input>,
    commands_from_args: bool,
    names: Seq<Seq<char>>,
) -> bool {
    if commands_from_args {
        inputs == seq![Input::CommandLineArgs]
    } else if names.len() == 0 {
        inputs == seq![Input::Buffered(BufferedInput::Stdin)]
    } else {
        &&& inputs.len() == names.len()
        &&& forall|i: int| 0 <= i < inputs.len() ==> is_named_input(#[trigger] inputs[i], names[i])
    }
}

/// The digit for a number below ten.
pub open spec fn digit(n: nat) -> char {
    if n == 0 {
        '0'
    } else if n == 1 {
        '1'
    } else if n == 2 {
        '2'
    } else if n == 3 {
        '3'
    } else if n == 4 {
        '4'
    } else if n == 5 {
        '5'
    } else if n == 6 {
        '6'
    } else if n == 7 {
        '7'
    } else if n == 8 {
        '8'
    } else {
        '9'
    }
}

/// A number in decimal, without leading zeros.
pub open spec fn decimal(n: nat) -> Seq<char>
    decreases n,
{
    if n < 10 {
        seq![digit(n)]
    } else {
        decimal(n / 10).push(digit(n % 10))
    }
}

/// Appends the decimal digits of a number.
fn push_decimal(text: &mut String, n: usize)
    ensures
        final(text)@ == old(text)@ + decimal(n as nat),
    decreases n,
{
    if n >= 10 {
        push_decimal(text, n / 10);
    }
    let last = n % 10;
    let c = if last == 0 {
        '0'
    } else if last == 1 {
        '1'
    } else if last == 2 {
        '2'
    } else if last == 3 {
        '3'
    } else if last == 4 {
        '4'
    } else if last == 5 {
        '5'
    } else if last == 6 {
        '6'
    } else if last == 7 {
        '7'
    } else if last == 8 {
        '8'
    } else {
        '9'
    };
    text.push(c);
}

impl BufferedInput {
    /// How the input is called in diagnostics.
    pub open spec fn name(self) -> Seq<char> {
        match self {
            BufferedInput::Stdin => "stdin"@,
            BufferedInput::File { file_name } => file_name@,
        }
    }

    /// The name of the input: `stdin`, or the name of the file.
    pub fn to_string(&self) -> (text: String)
        ensures
            text@ == self.name(),
    {
        match self {
            BufferedInput::Stdin => "stdin".to_owned(),
            BufferedInput::File { file_name } => (*file_name).to_owned(),
        }
    }
}

impl Input {
    /// How the input is called in diagnostics.
    pub open spec fn name(self) -> Seq<char> {
        match self {
            Input::Buffered(buffered_input) => buffered_input.name(),
            Input::CommandLineArgs => "command_line_args"@,
        }
    }

    /// The name of the input: that of the buffered input, or
    /// `command_line_args`.
    pub fn to_string(&self) -> (text: String)
        ensures
            text@ == self.name(),
    {
        match self {
            Input::Buffered(buffered_input) => buffered_input.to_string(),
            Input::CommandLineArgs => "command_line_args".to_owned(),
        }
    }
}

impl InputLineNumber {
    /// How the place is written in diagnostics.
    pub open spec fn text(self) -> Seq<char> {
        self.input.name().push(':') + decimal(self.line_number as nat)
    }

    /// The place as `input:line`.
    pub fn to_string(&self) -> (text: String)
        ensures
            text@ == self.text(),
    {
        let mut text = self.input.to_string();
        text.push(':');
        push_decimal(&mut text, self.line_number);
        text
    }
}

/// The inputs of the run, in the order in which they are read.
pub fn build_input_list(command_line_args: &'static CommandLineArgs) -> (inputs: Vec<Input>)
    ensures
        is_input_list(
            inputs@,
            command_line_args.commands_from_args,
            command_line_args.input.deep_view(),
        ),
{
    let mut inputs: Vec<Input> = Vec::new();
    if command_line_args.commands_from_args {
        inputs.push(Input::CommandLineArgs);
    } else if command_line_args.input.len() == 0 {
        inputs.push(Input::Buffered(BufferedInput::Stdin));
    } else {
        let ghost names = command_line_args.input.deep_view();
        let mut i: usize = 0;
        while i < command_line_args.input.len()
            invariant
                i <= command_line_args.input.len(),
                names == command_line_args.input.deep_view(),
                inputs.len() == i,
                forall|k: int| 0 <= k < i ==> is_named_input(#[trigger] inputs[k], names[k]),
            decreases command_line_args.input.len() - i,
        {
            let input_name: &'static str = command_line_args.input[i].as_str();
            let input = if input_name.eq("-") {
                Input::Buffered(BufferedInput::Stdin)
            } else {
                Input::Buffered(BufferedInput::File { file_name: input_name })
            };
            inputs.push(input);
            i += 1;
        }
    }
    inputs
}

/// The number of the unit that follows the unit with number `units_read`:
/// one more, but never beyond the largest number.
pub open spec fn next_unit_number(units_read: usize) -> usize {
    if units_read < usize::MAX {
        (units_read + 1) as usize
    } else {
        usize::MAX
    }
}

/// Numbers the units that are read from one buffered input.
pub struct BufferedInputReader {
    buffered_input: BufferedInput,
    next_line_number: usize,
}

impl BufferedInputReader {
    /// The input that is read.
    pub closed spec fn buffered_input(&self) -> BufferedInput {
        self.buffered_input
    }

    /// How many units have been read.
    pub closed spec fn units_read(&self) -> usize {
        self.next_line_number
    }

    /// A reader at the start of the input: nothing has been read.
    pub fn new(buffered_input: BufferedInput) -> (reader: Self)
        ensures
            reader.buffered_input() == buffered_input,
            reader.units_read() == 0,
    {
        Self { buffered_input, next_line_number: 0 }
    }

    /// Takes what was read from the input: at its end, `None`; else the unit
    /// with its place. Units are counted from one, and the count stops at the
    /// largest number.
    pub fn next_segment(&mut self, segment: Option<Vec<u8>>) -> (numbered: Option<
        (InputLineNumber, Vec<u8>),
    >)
        ensures
            final(self).buffered_input() == old(self).buffered_input(),
            segment is None ==> numbered is None && final(self).units_read() == old(
                self,
            ).units_read(),
            segment is Some ==> final(self).units_read() == next_unit_number(
                old(self).units_read(),
            ),
            segment matches Some(bytes) ==> numbered matches Some((place, unit)) && unit == bytes
                && place.input == Input::Buffered(old(self).buffered_input())
                && place.line_number == final(self).units_read(),
    {
        match segment {
            None => None,
            Some(segment) => {
                if self.next_line_number < usize::MAX {
                    self.next_line_number += 1;
                }
                let input_line_number = InputLineNumber {
                    input: Input::Buffered(self.buffered_input),
                    line_number: self.next_line_number,
                };
                Some((input_line_number, segment))
            },
        }
    }
}

/// The message for one unit of a buffered input: the command that the parser
/// makes of it, tagged with its place; none if the unit gives no command.
pub fn buffered_input_message(
    parser: &BufferedInputLineParser,
    input_line_number: InputLineNumber,
    segment: Vec<u8>,
) -> (message: Option<InputMessage>)
    ensures
        message is Some <==> parser.command_for_segment(segment@) is Some,
        message matches Some(m) ==> Some(m.command_and_args@) == parser.command_for_segment(
            segment@,
        ) && m.input_line_number == input_line_number,
{
    match parser.parse_segment(segment) {
        Some(command_and_args) => Some(InputMessage { command_and_args, input_line_number }),
        None => None,
    }
}

/// The commands that a sequence of messages carries, in order.
pub open spec fn message_commands(messages: Seq<InputMessage>) -> Seq<Seq<Seq<char>>> {
    messages.map_values(|m: InputMessage| m.command_and_args@)
}

/// The messages for the commands on the command line: every command in
/// odometer order, numbered from one.
pub fn command_line_args_messages(parser: CommandLineArgsParser) -> (messages: Vec<InputMessage>)
    ensures
        message_commands(messages@) == expanded_commands(
            parser.shell(),
            parser.first_command_and_args(),
            parser.argument_groups(),
        ),
        forall|i: int|
            0 <= i < messages.len() ==> (#[trigger] messages[i]).input_line_number.input
                == Input::CommandLineArgs && messages[i].input_line_number.line_number == i + 1,
{
    let commands = parser.parse_command_line_args();
    let ghost all = commands.deep_view();
    let mut messages: Vec<InputMessage> = Vec::new();
    for command_and_args in it: commands
        invariant
            it.seq() == commands@,
            all == commands.deep_view(),
            messages.len() == it.index(),
            message_commands(messages@) == all.take(it.index()),
            forall|i: int|
                0 <= i < messages.len() ==> (#[trigger] messages[i]).input_line_number.input
                    == Input::CommandLineArgs && messages[i].input_line_number.line_number == i
                    + 1,
    {
        assert(messages.len() < commands.len());
        let line_number = messages.len() + 1;
        let message = InputMessage {
            command_and_args,
            input_line_number: InputLineNumber { input: Input::CommandLineArgs, line_number },
        };
        messages.push(message);
    }
    messages
}

} // verus!
