//! Character-level rules on lines and tokens: what counts as whitespace,
//! how a line breaks into words, how tokens join into one shell command,
//! which lines are skipped, and how placeholders are rewritten before capture
//! groups are expanded.

use crate::fields::{
    closed_fields, fields, lemma_fields_append_separators, lemma_fields_push, open_field,
};
use vstd::prelude::*;
use vstd::string::StringExecFns;

verus! {

broadcast use vstd::string::group_string_axioms;

/// The characters with the Unicode property `White_Space`.
pub open spec fn is_whitespace(c: char) -> bool {
    ||| ('\u{9}' <= c && c <= '\u{d}')
    ||| c == ' '
    ||| c == '\u{85}'
    ||| c == '\u{a0}'
    ||| c == '\u{1680}'
    ||| ('\u{2000}' <= c && c <= '\u{200a}')
    ||| c == '\u{2028}'
    ||| c == '\u{2029}'
    ||| c == '\u{202f}'
    ||| c == '\u{205f}'
    ||| c == '\u{3000}'
}

/// `char::is_whitespace` of the standard library: true exactly for the
/// characters with the Unicode property `White_Space`, which are the code
/// points that [`is_whitespace`] lists.
pub assume_specification[ char::is_whitespace ](c: char) -> (b: bool)
    ensures
        b == is_whitespace(c),
;

/// `String::push` of the standard library appends the character at the end.
pub assume_specification[ String::push ](s: &mut String, c: char)
    ensures
        final(s)@ == old(s)@.push(c),
;

/// Equality of two string slices in the standard library: they are equal
/// exactly when they hold the same characters.
pub assume_specification[ <str as PartialEq>::eq ](a: &str, b: &str) -> (r: bool)
    ensures
        r == (a@ == b@),
;

/// Whitespace as a separator of words.
pub open spec fn whitespace() -> spec_fn(char) -> bool {
    |c: char| is_whitespace(c)
}

/// The words of a line: its maximal runs of characters that are not
/// whitespace, in order.
pub open spec fn words(line: Seq<char>) -> Seq<Seq<char>> {
    fields(line, whitespace())
}

/// Every character of the line is whitespace; the empty line is blank.
pub open spec fn is_blank(line: Seq<char>) -> bool {
    forall|i: int| 0 <= i < line.len() ==> is_whitespace(#[trigger] line[i])
}

/// The first character of the line that is not whitespace is `#`.
pub open spec fn is_comment(line: Seq<char>) -> bool {
    exists|i: int| 0 <= i < line.len() && #[trigger] line[i] == '#' && is_blank(line.take(i))
}

/// Lines that produce no command: blank lines and comments.
pub open spec fn is_skipped_line(line: Seq<char>) -> bool {
    is_blank(line) || is_comment(line)
}

/// The tokens with one space between each two neighbours.
pub open spec fn join_with_spaces(tokens: Seq<Seq<char>>) -> Seq<char>
    decreases tokens.len(),
{
    if tokens.len() == 0 {
        Seq::empty()
    } else if tokens.len() == 1 {
        tokens[0]
    } else {
        join_with_spaces(tokens.drop_last()).push(' ') + tokens.last()
    }
}

/// What one character of a command argument becomes when placeholders are
/// rewritten: an opening brace gets a dollar sign in front.
pub open spec fn rewrite_char(c: char) -> Seq<char> {
    if c == '{' {
        seq!['$', '{']
    } else {
        seq![c]
    }
}

/// The rewriting of single characters, as a function.
pub open spec fn rewriting() -> spec_fn(char) -> Seq<char> {
    |c: char| rewrite_char(c)
}

/// The argument with every `{` replaced by `${`, so that `{name}` reads as
/// the capture reference `${name}`.
pub open spec fn rewrite_placeholders(argument: Seq<char>) -> Seq<char> {
    argument.map_values(rewriting()).flatten()
}

/// The text holds an opening brace.
pub open spec fn has_opening_brace(text: Seq<char>) -> bool {
    text.contains('{')
}

/// The text holds a dollar sign.
pub open spec fn has_dollar(text: Seq<char>) -> bool {
    text.contains('$')
}

/// An argument without an opening brace is its own rewriting.
pub proof fn lemma_rewrite_without_brace(argument: Seq<char>)
    requires
        !has_opening_brace(argument),
    ensures
        rewrite_placeholders(argument) == argument,
    decreases argument.len(),
{
    if argument.len() > 0 {
        let shorter = argument.drop_last();
        let last = argument.last();
        assert forall|i: int| 0 <= i < shorter.len() implies shorter[i] != '{' by {
            assert(argument[i] == shorter[i]);
        }
        assert(argument[argument.len() - 1] != '{');
        lemma_rewrite_without_brace(shorter);
        let parts = shorter.map_values(rewriting());
        assert(argument.map_values(rewriting()) == parts.push(rewrite_char(last)));
        parts.lemma_flatten_push(rewrite_char(last));
        assert(shorter + seq![last] == argument);
    }
}

/// A blank line has no words.
pub proof fn lemma_blank_line_has_no_words(line: Seq<char>)
    requires
        is_blank(line),
    ensures
        words(line) == Seq::<Seq<char>>::empty(),
{
    if line.len() > 0 {
        lemma_fields_append_separators(Seq::<char>::empty(), line, whitespace());
    }
}

/// Whether the line is blank or a comment.
pub fn is_skipped(line: &str) -> (skipped: bool)
    ensures
        skipped == is_skipped_line(line@),
{
    for c in it: line.chars()
        invariant
            it.seq() == line@,
            is_blank(line@.take(it.index())),
    {
        if !c.is_whitespace() {
            proof {
                let at = it.index();
                if c != '#' {
                    assert forall|i: int| 0 <= i < line@.len() && line@[i] == '#' implies !is_blank(
                        line@.take(i),
                    ) by {
                        if i < at {
                            assert(line@.take(at)[i] == line@[i]);
                        } else {
                            assert(line@.take(i)[at] == line@[at]);
                        }
                    }
                }
            }
            return c == '#';
        }
        proof {
            let at = it.index();
            assert forall|i: int| 0 <= i < line@.take(at + 1).len() implies is_whitespace(
                #[trigger] line@.take(at + 1)[i],
            ) by {
                if i < at {
                    assert(line@.take(at)[i] == line@[i]);
                }
            }
        }
    }
    assert(line@.take(line@.len() as int) == line@);
    true
}

/// Breaks a line into its words.
pub fn split_words(line: &str) -> (tokens: Vec<String>)
    ensures
        tokens.deep_view() == words(line@),
{
    let mut tokens: Vec<String> = Vec::new();
    let mut current = String::new();
    let mut pending = false;
    for c in it: line.chars()
        invariant
            it.seq() == line@,
            tokens.deep_view() == closed_fields(line@.take(it.index()), whitespace()),
            current@ == open_field(line@.take(it.index()), whitespace()),
            pending == (current@.len() > 0),
    {
        proof {
            let at = it.index();
            assert(line@.take(at).push(c) == line@.take(at + 1));
            lemma_fields_push(line@.take(at), c, whitespace());
        }
        if c.is_whitespace() {
            if pending {
                tokens.push(current);
                current = String::new();
                pending = false;
            }
        } else {
            current.push(c);
            pending = true;
        }
    }
    assert(line@.take(line@.len() as int) == line@);
    if pending {
        tokens.push(current);
    }
    tokens
}

/// Joins the tokens into one string, a single space between neighbours.
pub fn join_tokens(tokens: &Vec<String>) -> (joined: String)
    ensures
        joined@ == join_with_spaces(tokens.deep_view()),
{
    let mut joined = String::new();
    let mut i: usize = 0;
    while i < tokens.len()
        invariant
            i <= tokens.len(),
            joined@ == join_with_spaces(tokens.deep_view().take(i as int)),
        decreases tokens.len() - i,
    {
        proof {
            let all = tokens.deep_view();
            assert(all.take(i + 1).drop_last() == all.take(i as int));
        }
        if i > 0 {
            joined.push(' ');
        }
        joined.append(tokens[i].as_str());
        i += 1;
    }
    assert(tokens.deep_view().take(tokens.len() as int) == tokens.deep_view());
    joined
}

/// Rewrites the placeholders of a command argument for capture expansion.
pub fn rewrite_argument(argument: &str) -> (rewritten: String)
    ensures
        rewritten@ == rewrite_placeholders(argument@),
{
    let mut rewritten = String::new();
    for c in it: argument.chars()
        invariant
            it.seq() == argument@,
            rewritten@ == rewrite_placeholders(argument@.take(it.index())),
    {
        proof {
            let at = it.index();
            let parts = argument@.take(at).map_values(rewriting());
            assert(argument@.take(at + 1).map_values(rewriting()) == parts.push(rewrite_char(c)));
            parts.lemma_flatten_push(rewrite_char(c));
        }
        if c == '{' {
            rewritten.push('$');
        }
        rewritten.push(c);
    }
    assert(argument@.take(argument@.len() as int) == argument@);
    rewritten
}

/// Copies a list of tokens.
pub fn copy_tokens(tokens: &Vec<String>) -> (copy: Vec<String>)
    ensures
        copy.deep_view() == tokens.deep_view(),
{
    tokens.clone()
}

} // verus!
