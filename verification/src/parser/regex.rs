//! Substitution of capture groups into command arguments.

use crate::command_line_args::CommandLineArgs;
use crate::parser::placeholders::{argument_resolves, placeholders_resolve};
use crate::text::{
    has_dollar, has_opening_brace, lemma_rewrite_without_brace, rewrite_argument,
    rewrite_placeholders,
};
use std::borrow::Cow;
use vstd::prelude::*;

verus! {

#[verifier::external_type_specification]
#[verifier::external_body]
pub struct ExRegex(::regex::Regex);

#[verifier::external_type_specification]
#[verifier::external_body]
pub struct ExRegexError(::regex::Error);

/// Whether `Regex::new` accepts the pattern.
pub uninterp spec fn regex_compiles(pattern: Seq<char>) -> bool;

/// The pattern that a compiled regex was made from, as `Regex::as_str`
/// returns it.
pub uninterp spec fn regex_source(regex: ::regex::Regex) -> Seq<char>;

/// The template with the capture groups of the pattern's first match in the
/// input expanded into it, as `Captures::expand` writes it for what
/// `Regex::captures` finds; `None` when the pattern does not match the input.
pub uninterp spec fn regex_expansion(
    pattern: Seq<char>,
    input: Seq<char>,
    template: Seq<char>,
) -> Option<Seq<char>>;

/// The number of capture groups of a pattern, as `Regex::captures_len`
/// returns it: the groups of the pattern and the group of the whole match.
pub uninterp spec fn regex_group_count(pattern: Seq<char>) -> nat;

/// The names of the capture groups of a pattern, in the order of the groups,
/// as `Regex::capture_names` yields them: `None` for a group without a name.
pub uninterp spec fn regex_group_names(pattern: Seq<char>) -> Seq<Option<Seq<char>>>;

/// `Regex::new`: compiles the pattern, or reports why it cannot. The outcome
/// depends on the pattern alone, and the compiled regex keeps the pattern it
/// was made from.
#[verifier::external_body]
fn compile(pattern: &str) -> (result: Result<::regex::Regex, ::regex::Error>)
    ensures
        result is Ok <==> regex_compiles(pattern@),
        result matches Ok(regex) ==> regex_source(regex) == pattern@,
{
    ::regex::Regex::new(pattern)
}

/// `Clone` for `Regex`: the copy is a regex of the same pattern.
#[verifier::external_body]
fn copy_regex(regex: &::regex::Regex) -> (copy: ::regex::Regex)
    ensures
        regex_source(copy) == regex_source(*regex),
{
    regex.clone()
}

/// The message of a `regex::Error`, as its `Display` impl writes it. Nothing
/// is claimed about the text.
#[verifier::external_body]
fn error_message(error: &::regex::Error) -> (message: String) {
    error.to_string()
}

/// `Regex::captures_len`: the number of capture groups, the group of the
/// whole match counted in, so that it is never zero. For a regex that
/// `Regex::new` made it depends on the pattern alone.
#[verifier::external_body]
fn group_count(regex: &::regex::Regex) -> (count: usize)
    ensures
        count == regex_group_count(regex_source(*regex)),
        count >= 1,
{
    regex.captures_len()
}

/// `Regex::capture_names`, collected: the name of each capture group in the
/// order of the groups, `None` for a group without a name. For a regex that
/// `Regex::new` made it depends on the pattern alone.
#[verifier::external_body]
fn group_names(regex: &::regex::Regex) -> (names: Vec<Option<String>>)
    ensures
        names.deep_view() == regex_group_names(regex_source(*regex)),
{
    regex.capture_names().map(|name| name.map(String::from)).collect()
}

/// `Regex::captures` followed by `Captures::expand`: searches the input for
/// the first match and, if there is one, expands its capture groups into the
/// template. For a regex that `Regex::new` made, and this library holds no
/// other, the result depends only on the pattern, the input and the
/// template. A template without a dollar sign holds no capture reference and
/// expands to itself.
#[verifier::external_body]
fn expand_first_match(regex: &::regex::Regex, input_data: &str, template: &str) -> (expanded:
    Option<String>)
    ensures
        expanded is Some <==> regex_expansion(regex_source(*regex), input_data@, template@) is Some,
        expanded matches Some(text) ==> regex_expansion(
            regex_source(*regex),
            input_data@,
            template@,
        ) == Some(text@),
        expanded matches Some(text) ==> !has_dollar(template@) ==> text@ == template@,
{
    let captures = regex.captures(input_data)?;
    let mut dest = String::new();
    captures.expand(template, &mut dest);
    Some(dest)
}

/// A capture pattern that could not be compiled.
#[derive(Debug)]
pub struct InvalidRegex {
    /// The pattern as it was configured.
    pub pattern: String,
    /// What the regex compiler said about it.
    pub reason: String,
}

/// A compiled pattern with what is known of its capture groups.
struct CompiledPattern {
    regex: ::regex::Regex,
    group_count: usize,
    group_names: Vec<Option<String>>,
}

impl CompiledPattern {
    #[verifier::type_invariant]
    spec fn groups_known(&self) -> bool {
        &&& self.group_count == regex_group_count(regex_source(self.regex))
        &&& self.group_count >= 1
        &&& self.group_names.deep_view() == regex_group_names(regex_source(self.regex))
    }
}

/// Holds the compiled capture pattern, if one is configured, and substitutes
/// what it captures into command arguments.
pub struct RegexProcessor {
    regex: Option<CompiledPattern>,
}

impl View for RegexProcessor {
    type V = Option<Seq<char>>;

    /// The capture pattern, if there is one.
    closed spec fn view(&self) -> Option<Seq<char>> {
        match self.regex {
            None => None,
            Some(compiled) => Some(regex_source(compiled.regex)),
        }
    }
}

/// The characters of a string that may be missing.
pub open spec fn option_text(text: Option<String>) -> Option<Seq<char>> {
    match text {
        None => None,
        Some(text) => Some(text@),
    }
}

/// A pattern has at least one capture group, that of the whole match, so
/// that `{0}` always stands for a group.
pub open spec fn has_whole_match_group(pattern: Option<Seq<char>>) -> bool {
    pattern matches Some(pattern) ==> regex_group_count(pattern) >= 1
}

/// Every placeholder of the argument stands for a capture group of the
/// pattern.
pub open spec fn resolves_in(argument: Seq<char>, pattern: Seq<char>) -> bool {
    placeholders_resolve(argument, regex_group_count(pattern), regex_group_names(pattern))
}

/// What an argument becomes for an input line. It stays as it is without a
/// pattern, with a placeholder that stands for no group of the pattern, and
/// without a match. Else the capture groups of the first match are expanded
/// into the argument, whose `{ref}` placeholders read as `${ref}`; a group
/// that took no part in the match is expanded to nothing.
pub open spec fn processed_string(
    pattern: Option<Seq<char>>,
    argument: Seq<char>,
    input: Seq<char>,
) -> Seq<char> {
    match pattern {
        None => argument,
        Some(pattern) => if resolves_in(argument, pattern) {
            substitution(argument, regex_expansion(pattern, input, rewrite_placeholders(argument)))
        } else {
            argument
        },
    }
}

/// The expansion where the pattern matched, else the argument as it was.
pub open spec fn substitution(argument: Seq<char>, expansion: Option<Seq<char>>) -> Seq<char> {
    match expansion {
        None => argument,
        Some(expanded) => expanded,
    }
}

/// Picks the result of a substitution: the expansion if the pattern matched,
/// else the argument itself.
pub fn substitute<'a>(argument: &'a str, expansion: Option<String>) -> (result: Cow<'a, str>)
    ensures
        result@ == substitution(argument@, option_text(expansion)),
{
    match expansion {
        None => Cow::Borrowed(argument),
        Some(expanded) => Cow::Owned(expanded),
    }
}

impl RegexProcessor {
    /// Compiles the configured capture pattern. Without a pattern this
    /// always succeeds; with one it fails exactly when the pattern does not
    /// compile.
    pub fn new(command_line_args: &CommandLineArgs) -> (result: Result<Self, InvalidRegex>)
        ensures
            result is Ok <==> (command_line_args.regex matches Some(pattern) ==> regex_compiles(
                pattern@,
            )),
            result matches Ok(processor) ==> processor@ == option_text(command_line_args.regex),
            result matches Ok(processor) ==> has_whole_match_group(processor@),
            result matches Err(error) ==> command_line_args.regex matches Some(pattern)
                && error.pattern@ == pattern@,
    {
        let regex = match &command_line_args.regex {
            None => None,
            Some(pattern) => {
                match compile(pattern.as_str()) {
                    Ok(regex) => {
                        let group_count = group_count(&regex);
                        let group_names = group_names(&regex);
                        Some(CompiledPattern { regex, group_count, group_names })
                    },
                    Err(error) => {
                        return Err(
                            InvalidRegex {
                                pattern: pattern.clone(),
                                reason: error_message(&error),
                            },
                        );
                    },
                }
            },
        };
        Ok(Self { regex })
    }

    /// Whether a capture pattern is configured.
    pub fn regex_mode(&self) -> (enabled: bool)
        ensures
            enabled == (self@ is Some),
    {
        self.regex.is_some()
    }

    /// Substitutes what the pattern captures in `input_data` into `argument`.
    /// The argument comes back as it is without a pattern, without a match,
    /// with a placeholder that stands for no group of the pattern, and where
    /// it holds neither a brace nor a dollar sign.
    pub fn process_string<'a>(&self, argument: &'a str, input_data: &str) -> (result: Cow<'a, str>)
        ensures
            result@ == processed_string(self@, argument@, input_data@),
            self@ is None ==> result@ == argument@,
            !has_opening_brace(argument@) && !has_dollar(argument@) ==> result@ == argument@,
    {
        let compiled = match &self.regex {
            None => return Cow::Borrowed(argument),
            Some(compiled) => compiled,
        };
        proof {
            use_type_invariant(compiled);
            if !has_opening_brace(argument@) {
                lemma_rewrite_without_brace(argument@);
            }
        }
        if !argument_resolves(argument, compiled.group_count, &compiled.group_names) {
            return Cow::Borrowed(argument);
        }
        let template = rewrite_argument(argument);
        let expansion = expand_first_match(&compiled.regex, input_data, template.as_str());
        substitute(argument, expansion)
    }
}

impl Clone for RegexProcessor {
    /// The copy holds the same pattern.
    fn clone(&self) -> (copy: Self)
        ensures
            copy@ == self@,
    {
        let regex = match &self.regex {
            None => None,
            Some(compiled) => {
                proof {
                    use_type_invariant(compiled);
                }
                Some(
                    CompiledPattern {
                        regex: copy_regex(&compiled.regex),
                        group_count: compiled.group_count,
                        group_names: compiled.group_names.clone(),
                    },
                )
            },
        };
        Self { regex }
    }
}

} // verus!
