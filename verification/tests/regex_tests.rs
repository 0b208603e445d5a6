use rust_parallel::command_line_args::CommandLineArgs;
use rust_parallel::parser::regex::{substitute, RegexProcessor};

fn processor(pattern: &str) -> RegexProcessor {
    let command_line_args = CommandLineArgs {
        regex: Some(pattern.to_string()),
        ..Default::default()
    };
    RegexProcessor::new(&command_line_args).unwrap()
}

#[test]
fn test_regex_disabled() {
    let command_line_args = CommandLineArgs {
        regex: None,
        ..Default::default()
    };

    let regex_processor = RegexProcessor::new(&command_line_args).unwrap();

    assert_eq!(regex_processor.regex_mode(), false);

    assert_eq!(regex_processor.process_string("{0}", "input line"), "{0}");
}

#[test]
fn test_regex_numbered_groups() {
    let command_line_args = CommandLineArgs {
        regex: Some("(.*),(.*)".to_string()),
        ..Default::default()
    };

    let regex_processor = RegexProcessor::new(&command_line_args).unwrap();

    assert_eq!(regex_processor.regex_mode(), true);

    assert_eq!(
        regex_processor.process_string("{1} {2}", "hello,world"),
        "hello world"
    );
}

#[test]
fn test_regex_named_groups() {
    let command_line_args = CommandLineArgs {
        regex: Some("(?P<arg1>.*),(?P<arg2>.*)".to_string()),
        ..Default::default()
    };

    let regex_processor = RegexProcessor::new(&command_line_args).unwrap();

    assert_eq!(regex_processor.regex_mode(), true);

    assert_eq!(
        regex_processor.process_string("{arg1} {arg2}", "hello,world"),
        "hello world"
    );
}

#[test]
fn test_regex_invalid() {
    let command_line_args = CommandLineArgs {
        regex: Some("(?Parg1>.*),(?P<arg2>.*)".to_string()),
        ..Default::default()
    };

    let result = RegexProcessor::new(&command_line_args);

    assert!(result.is_err());
}

#[test]
fn invalid_regex_reports_its_pattern() {
    let command_line_args = CommandLineArgs {
        regex: Some("(unclosed".to_string()),
        ..Default::default()
    };
    match RegexProcessor::new(&command_line_args) {
        Ok(_) => panic!("the pattern must not compile"),
        Err(error) => {
            assert_eq!(error.pattern, "(unclosed");
            assert!(!error.reason.is_empty());
        }
    }
}

#[test]
fn regex_disabled_returns_any_argument_unchanged() {
    let regex_processor = RegexProcessor::new(&CommandLineArgs::default()).unwrap();
    assert_eq!(regex_processor.process_string("{0}", "anything"), "{0}");
    assert_eq!(regex_processor.process_string("{name} $1", "a,b"), "{name} $1");
    assert_eq!(regex_processor.process_string("", ""), "");
}

#[test]
fn regex_without_match_returns_the_argument_unchanged() {
    let regex_processor = processor("(\\d+),(\\d+)");
    assert_eq!(regex_processor.process_string("{1} {2}", "hello,world"), "{1} {2}");
}

#[test]
fn zero_is_the_whole_match() {
    let regex_processor = processor("(?P<arg1>.*),(?P<arg2>.*),(?P<arg3>.*)");
    assert_eq!(
        regex_processor.process_string("dollarzero={0}", "foo,bar,baz"),
        "dollarzero=foo,bar,baz"
    );
    assert_eq!(regex_processor.process_string("arg2={arg2}", "1,2,3"), "arg2=2");
}

#[test]
fn unknown_group_number_leaves_the_argument_unchanged() {
    let regex_processor = processor("(.*),(.*)");
    assert_eq!(regex_processor.process_string("{3}", "hello,world"), "{3}");
    assert_eq!(regex_processor.process_string("<{9}>", "a,b"), "<{9}>");
    assert_eq!(
        regex_processor.process_string("{99999999999999999999999999}", "a,b"),
        "{99999999999999999999999999}"
    );
}

#[test]
fn unknown_group_name_leaves_the_argument_unchanged() {
    let regex_processor = processor("(?P<arg1>.*),(?P<arg2>.*)");
    assert_eq!(regex_processor.process_string("<{nothing}>", "a,b"), "<{nothing}>");
    assert_eq!(regex_processor.process_string("{arg3}", "a,b"), "{arg3}");
    assert_eq!(regex_processor.process_string("{}", "a,b"), "{}");
    assert_eq!(regex_processor.process_string("{1a}", "a,b"), "{1a}");
}

#[test]
fn one_unknown_group_keeps_the_whole_argument() {
    let regex_processor = processor("(.*),(.*)");
    assert_eq!(regex_processor.process_string("{1} {3}", "a,b"), "{1} {3}");
    assert_eq!(regex_processor.process_string("{name}={2}", "a,b"), "{name}={2}");
}

#[test]
fn brace_that_is_not_closed_leaves_the_argument_unchanged() {
    let regex_processor = processor("(.*),(.*)");
    assert_eq!(regex_processor.process_string("{", "a,b"), "{");
    assert_eq!(regex_processor.process_string("{1", "a,b"), "{1");
    assert_eq!(regex_processor.process_string("{1} {2", "a,b"), "{1} {2");
}

#[test]
fn known_groups_are_substituted() {
    let regex_processor = processor("(.*),(?P<second>.*)");
    assert_eq!(regex_processor.process_string("{0}", "a,b"), "a,b");
    assert_eq!(regex_processor.process_string("{1}", "a,b"), "a");
    assert_eq!(regex_processor.process_string("{2}", "a,b"), "b");
    assert_eq!(regex_processor.process_string("{02}", "a,b"), "b");
    assert_eq!(regex_processor.process_string("{second}{1}", "a,b"), "ba");
    assert_eq!(regex_processor.process_string("}{1}}", "a,b"), "}a}");
}

#[test]
fn pattern_without_groups_knows_the_whole_match_only() {
    let regex_processor = processor("b+");
    assert_eq!(regex_processor.process_string("[{0}]", "abbc"), "[bb]");
    assert_eq!(regex_processor.process_string("[{1}]", "abbc"), "[{1}]");
}

#[test]
fn group_that_took_no_part_is_replaced_by_nothing() {
    let regex_processor = processor("(a)|(b)");
    assert_eq!(regex_processor.process_string("[{1}][{2}]", "b"), "[][b]");
}

#[test]
fn argument_without_placeholder_is_kept_on_a_match() {
    let regex_processor = processor("(.*),(.*)");
    assert_eq!(regex_processor.process_string("echo", "a,b"), "echo");
    assert_eq!(regex_processor.process_string("", "a,b"), "");
    assert_eq!(regex_processor.process_string("a } b", "a,b"), "a } b");
}

#[test]
fn clone_keeps_the_pattern() {
    let regex_processor = processor("(.*),(.*)");
    let copy = regex_processor.clone();
    assert_eq!(copy.regex_mode(), true);
    assert_eq!(copy.process_string("{2} {1}", "hello,world"), "world hello");
    let disabled = RegexProcessor::new(&CommandLineArgs::default()).unwrap();
    assert_eq!(disabled.clone().regex_mode(), false);
}

#[test]
fn substitute_prefers_the_expansion() {
    assert_eq!(substitute("{1}", Some("hello".to_owned())), "hello");
    assert_eq!(substitute("{1}", Some(String::new())), "");
    assert_eq!(substitute("{1}", None), "{1}");
}
