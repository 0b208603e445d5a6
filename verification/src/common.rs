//! The command invocation: a program and its arguments, ready to spawn.

use std::collections::VecDeque;
use vstd::prelude::*;
use vstd::std_specs::convert::TryFromSpecImpl;
use vstd::string::StringExecFns;

verus! {

/// A program and the arguments to start it with.
///
/// It is made from a list of tokens that is not empty: the first token is the
/// program, the others are its arguments.
#[derive(Debug, PartialEq, Eq)]
pub struct OwnedCommandAndArgs {
    pub command_path: String,
    pub args: Vec<String>,
}

impl View for OwnedCommandAndArgs {
    type V = Seq<Seq<char>>;

    /// The tokens of the invocation: the program, then the arguments.
    open spec fn view(&self) -> Seq<Seq<char>> {
        seq![self.command_path@] + self.args.deep_view()
    }
}

impl DeepView for OwnedCommandAndArgs {
    type V = Seq<Seq<char>>;

    /// The same tokens as the view.
    open spec fn deep_view(&self) -> Seq<Seq<char>> {
        self@
    }
}

/// The text that `Debug` writes for a string: the string in double quotes,
/// with the characters escaped that need it.
pub uninterp spec fn debug_text(text: Seq<char>) -> Seq<char>;

/// `Debug` for `str`, through `format!`: the text between double quotes,
/// escaped. It depends on the text alone.
#[verifier::external_body]
fn debug_string(text: &str) -> (quoted: String)
    ensures
        quoted@ == debug_text(text@),
{
    format!("{:?}", text)
}

/// The items as `Debug` writes each of them, with a comma and a space
/// between neighbours.
pub open spec fn debug_list(items: Seq<Seq<char>>) -> Seq<char>
    decreases items.len(),
{
    if items.len() == 0 {
        Seq::empty()
    } else if items.len() == 1 {
        debug_text(items[0])
    } else {
        debug_list(items.drop_last()).push(',').push(' ') + debug_text(items.last())
    }
}

/// How an invocation is written in diagnostics: the program as `Debug`
/// writes it, a space, and the arguments as `Debug` writes them, in square
/// brackets.
pub open spec fn command_text(command_path: Seq<char>, args: Seq<Seq<char>>) -> Seq<char> {
    (debug_text(command_path).push(' ').push('[') + debug_list(args)).push(']')
}

impl OwnedCommandAndArgs {
    /// The invocation as it is written in diagnostics.
    pub fn to_string(&self) -> (text: String)
        ensures
            text@ == command_text(self.command_path@, self.args.deep_view()),
    {
        let mut text = debug_string(self.command_path.as_str());
        text.push(' ');
        text.push('[');
        let ghost head = text@;
        let mut i: usize = 0;
        while i < self.args.len()
            invariant
                i <= self.args.len(),
                text@ == head + debug_list(self.args.deep_view().take(i as int)),
            decreases self.args.len() - i,
        {
            let ghost all = self.args.deep_view();
            assert(all.take(i + 1).drop_last() == all.take(i as int));
            if i > 0 {
                text.push(',');
                text.push(' ');
            }
            let quoted = debug_string(self.args[i].as_str());
            text.append(quoted.as_str());
            i += 1;
        }
        assert(self.args.deep_view().take(self.args.len() as int) == self.args.deep_view());
        text.push(']');
        text
    }
}

/// What an attempt to make an invocation from no tokens reports.
pub open spec fn empty_tokens_error() -> Seq<char> {
    "deque is empty"@
}

/// What the conversion returns is stated on `try_from` itself, over the
/// tokens; no result is claimed here as a value.
impl TryFromSpecImpl<VecDeque<String>> for OwnedCommandAndArgs {
    open spec fn obeys_try_from_spec() -> bool {
        false
    }

    open spec fn try_from_spec(deque: VecDeque<String>) -> Result<Self, &'static str> {
        Err("deque is empty")
    }
}

impl TryFrom<VecDeque<String>> for OwnedCommandAndArgs {
    type Error = &'static str;

    /// Takes the first token as the program and the rest as its arguments;
    /// fails exactly when there is no token.
    fn try_from(deque: VecDeque<String>) -> (result: Result<Self, Self::Error>)
        ensures
            deque.len() == 0 <==> result is Err,
            result matches Ok(command) ==> command@ == deque.deep_view(),
            result matches Err(message) ==> message@ == empty_tokens_error(),
    {
        let mut deque = deque;
        let ghost tokens = deque.deep_view();
        let command = match deque.pop_front() {
            Some(command) => command,
            None => return Err("deque is empty"),
        };
        let mut args: Vec<String> = Vec::new();
        while deque.len() > 0
            invariant
                tokens.len() > 0,
                args.len() + deque.len() + 1 == tokens.len(),
                args.deep_view() == tokens.subrange(1, 1 + args.len()),
                deque.deep_view() == tokens.subrange(1 + args.len(), tokens.len() as int),
            decreases deque.len(),
        {
            let ghost rest = deque.deep_view();
            match deque.pop_front() {
                Some(arg) => {
                    assert(arg@ == rest[0]);
                    args.push(arg);
                    assert(deque.deep_view() == rest.subrange(1, rest.len() as int));
                },
                None => {},
            }
        }
        Ok(Self { command_path: command, args })
    }
}

/// What the conversion returns is stated on `try_from` itself, over the
/// tokens; no result is claimed here as a value.
impl TryFromSpecImpl<Vec<String>> for OwnedCommandAndArgs {
    open spec fn obeys_try_from_spec() -> bool {
        false
    }

    open spec fn try_from_spec(vec: Vec<String>) -> Result<Self, &'static str> {
        Err("deque is empty")
    }
}

impl TryFrom<Vec<String>> for OwnedCommandAndArgs {
    type Error = &'static str;

    /// Takes the first token as the program and the rest as its arguments;
    /// fails exactly when there is no token.
    fn try_from(vec: Vec<String>) -> (result: Result<Self, Self::Error>)
        ensures
            vec.len() == 0 <==> result is Err,
            result matches Ok(command) ==> command@ == vec.deep_view(),
            result matches Err(message) ==> message@ == empty_tokens_error(),
    {
        let mut args = vec;
        if args.len() == 0 {
            return Err("deque is empty");
        }
        let command = args.remove(0);
        Ok(Self { command_path: command, args })
    }
}

} // verus!
