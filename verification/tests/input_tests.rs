use rust_parallel::command_line_args::CommandLineArgs;
use rust_parallel::common::OwnedCommandAndArgs;
use rust_parallel::input::{
    buffered_input_message, build_input_list, command_line_args_messages, BufferedInput,
    BufferedInputReader, Input, InputLineNumber,
};
use rust_parallel::parser::buffered::BufferedInputLineParser;
use rust_parallel::parser::command_line::CommandLineArgsParser;
use rust_parallel::parser::regex::RegexProcessor;

fn tokens(items: &[&str]) -> Vec<String> {
    items.iter().map(|item| item.to_string()).collect()
}

fn leak(command_line_args: CommandLineArgs) -> &'static CommandLineArgs {
    Box::leak(Box::new(command_line_args))
}

fn names(inputs: &[Input]) -> Vec<String> {
    inputs.iter().map(|input| input.to_string()).collect()
}

#[test]
fn input_list_defaults_to_stdin() {
    let inputs = build_input_list(leak(CommandLineArgs::default()));
    assert_eq!(inputs.len(), 1);
    assert!(matches!(inputs[0], Input::Buffered(BufferedInput::Stdin)));
}

#[test]
fn input_list_of_files_in_order() {
    let inputs = build_input_list(leak(CommandLineArgs {
        input: tokens(&["file.txt", "-", "other.txt", "-"]),
        ..Default::default()
    }));
    assert_eq!(inputs.len(), 4);
    assert!(matches!(
        inputs[0],
        Input::Buffered(BufferedInput::File { file_name: "file.txt" })
    ));
    assert!(matches!(inputs[1], Input::Buffered(BufferedInput::Stdin)));
    assert!(matches!(
        inputs[2],
        Input::Buffered(BufferedInput::File { file_name: "other.txt" })
    ));
    assert!(matches!(inputs[3], Input::Buffered(BufferedInput::Stdin)));
    assert_eq!(names(&inputs), tokens(&["file.txt", "stdin", "other.txt", "stdin"]));
}

#[test]
fn input_list_with_commands_from_args() {
    let inputs = build_input_list(leak(CommandLineArgs {
        commands_from_args: true,
        input: tokens(&["file.txt"]),
        ..Default::default()
    }));
    assert_eq!(inputs.len(), 1);
    assert!(matches!(inputs[0], Input::CommandLineArgs));
}

#[test]
fn input_names() {
    assert_eq!(BufferedInput::Stdin.to_string(), "stdin");
    assert_eq!(BufferedInput::File { file_name: "a/b.txt" }.to_string(), "a/b.txt");
    assert_eq!(Input::Buffered(BufferedInput::Stdin).to_string(), "stdin");
    assert_eq!(Input::CommandLineArgs.to_string(), "command_line_args");
}

#[test]
fn input_line_number_text() {
    let place = |line_number: usize| InputLineNumber {
        input: Input::Buffered(BufferedInput::File { file_name: "file.txt" }),
        line_number,
    };
    assert_eq!(place(0).to_string(), "file.txt:0");
    assert_eq!(place(7).to_string(), "file.txt:7");
    assert_eq!(place(10).to_string(), "file.txt:10");
    assert_eq!(place(1234567890).to_string(), "file.txt:1234567890");
    assert_eq!(place(usize::MAX).to_string(), format!("file.txt:{}", usize::MAX));
    let args = InputLineNumber { input: Input::CommandLineArgs, line_number: 42 };
    assert_eq!(args.to_string(), "command_line_args:42");
}

#[test]
fn reader_numbers_units_from_one() {
    let mut reader = BufferedInputReader::new(BufferedInput::Stdin);
    let (first, unit) = reader.next_segment(Some(b"echo A".to_vec())).unwrap();
    assert_eq!(first.line_number, 1);
    assert!(matches!(first.input, Input::Buffered(BufferedInput::Stdin)));
    assert_eq!(unit, b"echo A".to_vec());
    let (second, unit) = reader.next_segment(Some(vec![0xff])).unwrap();
    assert_eq!(second.line_number, 2);
    assert_eq!(unit, vec![0xff]);
    let (third, unit) = reader.next_segment(Some(Vec::new())).unwrap();
    assert_eq!(third.line_number, 3);
    assert!(unit.is_empty());
}

#[test]
fn reader_ends_without_counting() {
    let mut reader = BufferedInputReader::new(BufferedInput::File { file_name: "file.txt" });
    assert!(reader.next_segment(None).is_none());
    let (place, _) = reader.next_segment(Some(b"x".to_vec())).unwrap();
    assert_eq!(place.line_number, 1);
    assert!(matches!(
        place.input,
        Input::Buffered(BufferedInput::File { file_name: "file.txt" })
    ));
    assert!(reader.next_segment(None).is_none());
    let (place, _) = reader.next_segment(Some(b"y".to_vec())).unwrap();
    assert_eq!(place.line_number, 2);
}

#[test]
fn each_reader_counts_for_itself() {
    let mut first = BufferedInputReader::new(BufferedInput::Stdin);
    first.next_segment(Some(b"a".to_vec()));
    first.next_segment(Some(b"b".to_vec()));
    let mut second = BufferedInputReader::new(BufferedInput::Stdin);
    let (place, _) = second.next_segment(Some(b"c".to_vec())).unwrap();
    assert_eq!(place.line_number, 1);
}

fn line_parser(command_line_args: &CommandLineArgs) -> BufferedInputLineParser {
    BufferedInputLineParser::new(
        command_line_args,
        RegexProcessor::new(command_line_args).unwrap(),
    )
}

#[test]
fn message_for_a_unit_carries_its_place() {
    let command_line_args = CommandLineArgs {
        command_and_initial_arguments: tokens(&["echo"]),
        ..Default::default()
    };
    let parser = line_parser(&command_line_args);
    let place = InputLineNumber { input: Input::Buffered(BufferedInput::Stdin), line_number: 3 };
    let message = buffered_input_message(&parser, place, b"hello world".to_vec()).unwrap();
    assert_eq!(
        message.command_and_args,
        OwnedCommandAndArgs { command_path: "echo".to_owned(), args: tokens(&["hello", "world"]) }
    );
    assert_eq!(message.input_line_number.line_number, 3);
    assert!(matches!(
        message.input_line_number.input,
        Input::Buffered(BufferedInput::Stdin)
    ));
}

#[test]
fn no_message_for_a_unit_without_command() {
    let command_line_args = CommandLineArgs {
        command_and_initial_arguments: tokens(&["echo"]),
        ..Default::default()
    };
    let parser = line_parser(&command_line_args);
    let place = |line_number: usize| InputLineNumber {
        input: Input::Buffered(BufferedInput::Stdin),
        line_number,
    };
    assert!(buffered_input_message(&parser, place(1), b"".to_vec()).is_none());
    assert!(buffered_input_message(&parser, place(2), b"  # comment".to_vec()).is_none());
    assert!(buffered_input_message(&parser, place(3), vec![0xc0, 0x80]).is_none());
}

#[test]
fn messages_for_the_command_line_are_numbered_from_one() {
    let command_line_args = CommandLineArgs {
        commands_from_args: true,
        command_and_initial_arguments: tokens(&["echo", ":::", "A", "B", "C"]),
        ..Default::default()
    };
    let messages = command_line_args_messages(CommandLineArgsParser::new(&command_line_args));
    assert_eq!(messages.len(), 3);
    for (i, (message, argument)) in messages.iter().zip(["A", "B", "C"]).enumerate() {
        assert_eq!(
            message.command_and_args,
            OwnedCommandAndArgs { command_path: "echo".to_owned(), args: tokens(&[argument]) }
        );
        assert!(matches!(message.input_line_number.input, Input::CommandLineArgs));
        assert_eq!(message.input_line_number.line_number, i + 1);
    }
}

#[test]
fn no_messages_for_a_command_line_without_groups() {
    let command_line_args = CommandLineArgs {
        commands_from_args: true,
        command_and_initial_arguments: tokens(&["echo", "hello"]),
        ..Default::default()
    };
    assert!(command_line_args_messages(CommandLineArgsParser::new(&command_line_args)).is_empty());
}
