use rust_parallel::text::{copy_tokens, is_skipped, join_tokens, rewrite_argument, split_words};

fn tokens(items: &[&str]) -> Vec<String> {
    items.iter().map(|item| item.to_string()).collect()
}

#[test]
fn empty_line_is_skipped() {
    assert!(is_skipped(""));
}

#[test]
fn whitespace_line_is_skipped() {
    assert!(is_skipped(" "));
    assert!(is_skipped(" \t \r\n"));
    assert!(is_skipped("\u{a0}\u{2003}\u{3000}"));
}

#[test]
fn comment_line_is_skipped() {
    assert!(is_skipped("#"));
    assert!(is_skipped("# echo hello"));
    assert!(is_skipped("   \t# echo hello"));
    assert!(is_skipped("#!/bin/sh"));
}

#[test]
fn command_line_is_not_skipped() {
    assert!(!is_skipped("echo hello"));
    assert!(!is_skipped("  echo # not a comment"));
    assert!(!is_skipped("echo#"));
    assert!(!is_skipped("\u{200b}"));
    assert!(!is_skipped("x"));
}

#[test]
fn split_words_at_whitespace() {
    assert_eq!(split_words("echo hello world"), tokens(&["echo", "hello", "world"]));
}

#[test]
fn split_words_drops_empty_words() {
    assert_eq!(split_words("  echo \t hello\n"), tokens(&["echo", "hello"]));
    assert_eq!(split_words("a\u{3000}b\u{85}c"), tokens(&["a", "b", "c"]));
}

#[test]
fn split_words_of_nothing() {
    assert_eq!(split_words(""), Vec::<String>::new());
    assert_eq!(split_words(" \t "), Vec::<String>::new());
}

#[test]
fn split_words_of_one_word() {
    assert_eq!(split_words("echo"), tokens(&["echo"]));
    assert_eq!(split_words("\u{e9}t\u{e9}"), tokens(&["\u{e9}t\u{e9}"]));
}

#[test]
fn split_words_agrees_with_std() {
    for line in ["", " ", "a", " a", "a ", "a b", "a  b", "\ta\u{2028}b c\u{1680}", "x\u{200b}y"] {
        let expected: Vec<String> = line.split_whitespace().map(|word| word.to_string()).collect();
        assert_eq!(split_words(line), expected);
    }
}

#[test]
fn join_tokens_puts_one_space_between() {
    assert_eq!(join_tokens(&tokens(&["echo", "-n", "A", "C"])), "echo -n A C");
}

#[test]
fn join_tokens_of_few() {
    assert_eq!(join_tokens(&tokens(&[])), "");
    assert_eq!(join_tokens(&tokens(&["echo"])), "echo");
    assert_eq!(join_tokens(&tokens(&["", ""])), " ");
    assert_eq!(join_tokens(&tokens(&["a b", "c"])), "a b c");
}

#[test]
fn rewrite_argument_puts_a_dollar_before_each_brace() {
    assert_eq!(rewrite_argument("{1} {2}"), "${1} ${2}");
    assert_eq!(rewrite_argument("arg1={arg1}"), "arg1=${arg1}");
    assert_eq!(rewrite_argument("{{"), "${${");
}

#[test]
fn rewrite_argument_keeps_everything_else() {
    assert_eq!(rewrite_argument(""), "");
    assert_eq!(rewrite_argument("echo"), "echo");
    assert_eq!(rewrite_argument("} $1 \u{e9}"), "} $1 \u{e9}");
}

#[test]
fn copy_tokens_copies() {
    let list = tokens(&["a", "", "b c"]);
    assert_eq!(copy_tokens(&list), list);
    assert_eq!(copy_tokens(&Vec::new()), Vec::<String>::new());
}

#[test]
fn whitespace_is_what_splits_words() {
    let listed = |c: char| {
        matches!(
            c,
            '\u{9}'..='\u{d}'
                | ' '
                | '\u{85}'
                | '\u{a0}'
                | '\u{1680}'
                | '\u{2000}'..='\u{200a}'
                | '\u{2028}'
                | '\u{2029}'
                | '\u{202f}'
                | '\u{205f}'
                | '\u{3000}'
        )
    };
    let mut line = String::new();
    for code in 0..=0x10ffffu32 {
        if let Some(c) = char::from_u32(code) {
            assert_eq!(c.is_whitespace(), listed(c), "U+{:04X}", code);
            if code % 4099 == 0 || listed(c) {
                line.clear();
                line.push('a');
                line.push(c);
                line.push('b');
                let expected = if listed(c) { 2 } else { 1 };
                assert_eq!(split_words(&line).len(), expected, "U+{:04X}", code);
            }
        }
    }
}
