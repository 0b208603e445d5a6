//! Commands from the command line: a fixed prefix and argument groups,
//! expanded to one command for each way to pick one argument from every
//! group.

use crate::command_line_args::{CommandLineArgs, COMMANDS_FROM_ARGS_SEPARATOR};
use crate::common::OwnedCommandAndArgs;
use crate::fields::{
    all_separators, closed_fields, fields, lemma_fields_append_items,
    lemma_fields_append_separators, lemma_fields_of_separator_free, open_field, separator_free,
};
use crate::parser::{build_owned_command_and_args, command_tokens, ShellCommandAndArgs};
use crate::text::copy_tokens;
use itertools::Itertools;
use vstd::prelude::*;

verus! {

/// A token, as the sequence of its characters.
pub type Token = Seq<char>;

/// A run of consecutive tokens that are all separators or all not; the flag
/// says which.
pub type Run = (bool, Seq<Token>);

/// The separator token, as a predicate on tokens.
pub open spec fn separator() -> spec_fn(Token) -> bool {
    |token: Token| token == COMMANDS_FROM_ARGS_SEPARATOR@
}

/// The tokens of each run.
pub open spec fn run_bodies(runs: Seq<Run>) -> Seq<Seq<Token>> {
    runs.map_values(|run: Run| run.1)
}

/// `runs` cuts `tokens` into its maximal runs of separators and of other
/// tokens: the runs in order make up `tokens`, none is empty, the flag of a
/// run says whether its tokens are separators, and neighbours differ in it.
pub open spec fn is_run_split(tokens: Seq<Token>, runs: Seq<Run>) -> bool {
    &&& run_bodies(runs).flatten() == tokens
    &&& forall|i: int| 0 <= i < runs.len() ==> (#[trigger] runs[i]).1.len() > 0
    &&& forall|i: int, j: int|
        0 <= i < runs.len() && 0 <= j < runs[i].1.len() ==> separator()(#[trigger] runs[i].1[j])
            == runs[i].0
    &&& forall|i: int| 0 <= i < runs.len() - 1 ==> (#[trigger] runs[i]).0 != runs[i + 1].0
}

/// The runs that are not separators, in order.
pub open spec fn payloads(runs: Seq<Run>) -> Seq<Seq<Token>>
    decreases runs.len(),
{
    if runs.len() == 0 {
        Seq::empty()
    } else if runs.last().0 {
        payloads(runs.drop_last())
    } else {
        payloads(runs.drop_last()).push(runs.last().1)
    }
}

/// Every tuple of `heads` followed by every item of `last`: the tuples in
/// their order, and for each of them the items in theirs.
pub open spec fn extend_each(heads: Seq<Seq<Token>>, last: Seq<Token>) -> Seq<Seq<Token>> {
    Seq::new(
        heads.len() * last.len(),
        |k: int| heads[k / (last.len() as int)].push(last[k % (last.len() as int)]),
    )
}

/// All ways to pick one token from each group, as tuples in group order. The
/// tuples come in odometer order: the pick from the last group changes
/// fastest. No groups admit exactly one pick, the empty tuple.
pub open spec fn picks(groups: Seq<Seq<Token>>) -> Seq<Seq<Token>>
    decreases groups.len(),
{
    if groups.len() == 0 {
        seq![Seq::empty()]
    } else {
        extend_each(picks(groups.drop_last()), groups.last())
    }
}

/// In how many ways one token can be picked from each group: the product of
/// the sizes of the groups.
pub open spec fn pick_count(groups: Seq<Seq<Token>>) -> nat
    decreases groups.len(),
{
    if groups.len() == 0 {
        1
    } else {
        pick_count(groups.drop_last()) * groups.last().len()
    }
}

/// The tokens before the first separator; none if the list starts with one.
pub open spec fn first_command_and_args_of(tokens: Seq<Token>) -> Seq<Token> {
    if tokens.len() > 0 && !separator()(tokens[0]) {
        fields(tokens, separator())[0]
    } else {
        Seq::empty()
    }
}

/// The argument groups: the non-empty runs of tokens between separators,
/// after the first separator. A group is the run as it was given: a token
/// that occurs twice in it is kept twice.
pub open spec fn argument_groups_of(tokens: Seq<Token>) -> Seq<Seq<Token>> {
    if tokens.len() > 0 && !separator()(tokens[0]) {
        fields(tokens, separator()).skip(1)
    } else {
        fields(tokens, separator())
    }
}

/// The commands for a prefix and argument groups: none without a group, else
/// the prefix followed by each pick from the groups, in odometer order, each
/// wrapped for the shell in shell mode.
pub open spec fn expanded_commands(
    shell: Option<Seq<Token>>,
    prefix: Seq<Token>,
    groups: Seq<Seq<Token>>,
) -> Seq<Seq<Token>> {
    if groups.len() == 0 {
        Seq::empty()
    } else {
        picks(groups).map_values(|pick: Seq<Token>| command_tokens(shell, prefix + pick))
    }
}

/// The commands that the tokens of a command line stand for.
pub open spec fn command_line_commands(
    shell: Option<Seq<Token>>,
    tokens: Seq<Token>,
) -> Seq<Seq<Token>> {
    expanded_commands(shell, first_command_and_args_of(tokens), argument_groups_of(tokens))
}

/// `Itertools::group_by` over the tokens, keyed by whether a token is the
/// separator, with each group collected: consecutive tokens with the same
/// key form one group, so the result is the cut of the tokens into maximal
/// runs.
#[verifier::external_body]
fn separator_runs(tokens: &Vec<String>) -> (runs: Vec<(bool, Vec<String>)>)
    ensures
        is_run_split(tokens.deep_view(), runs.deep_view()),
{
    let grouped = tokens.iter().group_by(|token| is_separator(token));
    let mut runs = Vec::new();
    for (key, group) in &grouped {
        runs.push((key, group.cloned().collect()));
    }
    runs
}

/// `Itertools::multi_cartesian_product` over the groups, collected: every
/// pick of one token from each group, the last group changing fastest.
#[verifier::external_body]
fn cartesian_product(groups: Vec<Vec<String>>) -> (tuples: Vec<Vec<String>>)
    requires
        groups.len() > 0,
    ensures
        tuples.deep_view() == picks(groups.deep_view()),
{
    groups.into_iter().multi_cartesian_product().collect()
}

/// Whether the token is the separator of argument groups.
pub fn is_separator(token: &String) -> (result: bool)
    ensures
        result == separator()(token@),
{
    token.as_str().eq(COMMANDS_FROM_ARGS_SEPARATOR)
}

/// A cut without its last run is a cut of the tokens without that run.
proof fn lemma_run_split_drop_last(tokens: Seq<Token>, runs: Seq<Run>)
    requires
        is_run_split(tokens, runs),
        runs.len() > 0,
    ensures
        is_run_split(run_bodies(runs.drop_last()).flatten(), runs.drop_last()),
        tokens == run_bodies(runs.drop_last()).flatten() + runs.last().1,
{
    let shorter = runs.drop_last();
    assert(run_bodies(runs) == run_bodies(shorter).push(runs.last().1));
    run_bodies(shorter).lemma_flatten_push(runs.last().1);
}

/// The runs that are not separators are the fields of the tokens.
proof fn lemma_payloads_are_fields(tokens: Seq<Token>, runs: Seq<Run>)
    requires
        is_run_split(tokens, runs),
    ensures
        fields(tokens, separator()) == payloads(runs),
        runs.len() > 0 && !runs.last().0 ==> open_field(tokens, separator()) == runs.last().1
            && closed_fields(tokens, separator()) == payloads(runs.drop_last()),
        runs.len() == 0 || runs.last().0 ==> open_field(tokens, separator()) == Seq::<
            Token,
        >::empty(),
    decreases runs.len(),
{
    if runs.len() > 0 {
        let shorter = runs.drop_last();
        let before = run_bodies(shorter).flatten();
        let last = runs.last();
        lemma_run_split_drop_last(tokens, runs);
        lemma_payloads_are_fields(before, shorter);
        if last.0 {
            lemma_fields_append_separators(before, last.1, separator());
        } else {
            lemma_fields_append_items(before, last.1, separator());
        }
    }
}

/// The first token of the tokens is the first token of the first run.
proof fn lemma_first_run(tokens: Seq<Token>, runs: Seq<Run>)
    requires
        is_run_split(tokens, runs),
    ensures
        runs.len() == 0 <==> tokens.len() == 0,
        runs.len() > 0 ==> separator()(tokens[0]) == runs[0].0,
{
}

/// A command line without a group that is not empty gives no command: when
/// nothing but separators follows the prefix, whatever the prefix and the
/// shell mode.
pub proof fn lemma_no_group_no_command(
    shell: Option<Seq<Token>>,
    prefix: Seq<Token>,
    separators: Seq<Token>,
)
    requires
        separator_free(prefix, separator()),
        all_separators(separators, separator()),
    ensures
        argument_groups_of(prefix + separators) == Seq::<Seq<Token>>::empty(),
        command_line_commands(shell, prefix + separators) == Seq::<Seq<Token>>::empty(),
{
    lemma_fields_of_separator_free(prefix, separator());
    if separators.len() > 0 {
        lemma_fields_append_separators(prefix, separators, separator());
    }
}

/// There are as many picks as the product of the sizes of the groups, and
/// every pick holds one token for each group.
pub proof fn lemma_picks_shape(groups: Seq<Seq<Token>>)
    ensures
        picks(groups).len() == pick_count(groups),
        forall|k: int| 0 <= k < picks(groups).len() ==> (#[trigger] picks(groups)[k]).len()
            == groups.len(),
    decreases groups.len(),
{
    if groups.len() > 0 {
        let heads = picks(groups.drop_last());
        let last = groups.last();
        lemma_picks_shape(groups.drop_last());
        assert forall|k: int| 0 <= k < picks(groups).len() implies (#[trigger] picks(
            groups,
        )[k]).len() == groups.len() by {
            let n = last.len() as int;
            let count = heads.len() as int;
            assert(n > 0 && 0 <= k / n < count) by (nonlinear_arith)
                requires
                    0 <= k < count * n,
                    0 <= n,
                    0 <= count,
            ;
        }
    }
}

/// The prefix and the argument groups of a command line.
#[derive(Debug)]
pub struct ArgumentGroups {
    pub first_command_and_args: Vec<String>,
    pub argument_groups: Vec<Vec<String>>,
}

/// Expands the command line into its commands.
pub struct CommandLineArgsParser {
    argument_groups: ArgumentGroups,
    shell_command_and_args: ShellCommandAndArgs,
}

impl CommandLineArgsParser {
    /// The prefix that every command starts with.
    pub closed spec fn first_command_and_args(&self) -> Seq<Token> {
        self.argument_groups.first_command_and_args.deep_view()
    }

    /// The groups to pick arguments from.
    pub closed spec fn argument_groups(&self) -> Seq<Seq<Token>> {
        self.argument_groups.argument_groups.deep_view()
    }

    /// The shell and its flag, in shell mode.
    pub closed spec fn shell(&self) -> Option<Seq<Token>> {
        self.shell_command_and_args@
    }

    /// Reads the prefix, the argument groups and the shell from the
    /// configuration.
    pub fn new(command_line_args: &CommandLineArgs) -> (parser: Self)
        ensures
            parser.first_command_and_args() == first_command_and_args_of(
                command_line_args.command_and_initial_arguments.deep_view(),
            ),
            parser.argument_groups() == argument_groups_of(
                command_line_args.command_and_initial_arguments.deep_view(),
            ),
            parser.shell() == crate::parser::shell_prefix(
                command_line_args.shell,
                command_line_args.shell_path@,
            ),
    {
        let argument_groups = Self::build_argument_groups(command_line_args);
        let shell_command_and_args = ShellCommandAndArgs::new(command_line_args);
        Self { argument_groups, shell_command_and_args }
    }

    /// Cuts the command line at the separators: what stands before the first
    /// separator is the prefix, each non-empty run of tokens after it is a
    /// group. The tokens of a group are copied as they stand, in their order,
    /// repeated ones included.
    pub fn build_argument_groups(command_line_args: &CommandLineArgs) -> (groups: ArgumentGroups)
        ensures
            groups.first_command_and_args.deep_view() == first_command_and_args_of(
                command_line_args.command_and_initial_arguments.deep_view(),
            ),
            groups.argument_groups.deep_view() == argument_groups_of(
                command_line_args.command_and_initial_arguments.deep_view(),
            ),
    {
        let ghost tokens = command_line_args.command_and_initial_arguments.deep_view();
        let runs = separator_runs(&command_line_args.command_and_initial_arguments);
        let ghost cut = runs.deep_view();
        let ghost has_prefix = cut.len() > 0 && !cut[0].0;
        let mut argument_groups: Vec<Vec<String>> = Vec::new();
        let mut first = true;
        let mut first_command_and_args: Vec<String> = Vec::new();
        for run in it: runs
            invariant
                it.seq() == runs@,
                cut == runs.deep_view(),
                has_prefix == (cut.len() > 0 && !cut[0].0),
                first == (it.index() == 0),
                has_prefix && !first ==> payloads(cut.take(it.index())).len() > 0
                    && first_command_and_args.deep_view() == payloads(cut.take(it.index()))[0]
                    && argument_groups.deep_view() == payloads(cut.take(it.index())).skip(1),
                !has_prefix || first ==> first_command_and_args.deep_view() == Seq::<
                    Token,
                >::empty() && argument_groups.deep_view() == payloads(cut.take(it.index())),
        {
            let ghost at = it.index();
            assert(cut.take(at + 1).drop_last() == cut.take(at));
            let (separator, group) = run;
            if first {
                if !separator {
                    first_command_and_args = group;
                }
                first = false;
            } else if !separator {
                argument_groups.push(group);
            }
            proof {
                if has_prefix && !separator && at > 0 {
                    let picked = payloads(cut.take(at));
                    assert(picked.push(cut[at].1).skip(1) == picked.skip(1).push(cut[at].1));
                }
            }
        }
        proof {
            assert(cut.take(cut.len() as int) == cut);
            lemma_payloads_are_fields(tokens, cut);
            lemma_first_run(tokens, cut);
        }
        ArgumentGroups { first_command_and_args, argument_groups }
    }

    /// The commands of the command line: one for each pick of one argument
    /// from every group, the prefix in front, in odometer order; none if
    /// there is no group.
    pub fn parse_command_line_args(self) -> (commands: Vec<OwnedCommandAndArgs>)
        ensures
            commands.deep_view() == expanded_commands(
                self.shell(),
                self.first_command_and_args(),
                self.argument_groups(),
            ),
            self.argument_groups().len() == 0 ==> commands.len() == 0,
    {
        let ArgumentGroups { first_command_and_args, argument_groups } = self.argument_groups;
        let shell_command_and_args = self.shell_command_and_args;
        let mut commands: Vec<OwnedCommandAndArgs> = Vec::new();
        if argument_groups.len() == 0 {
            return commands;
        }
        let ghost shell = shell_command_and_args@;
        let ghost prefix = first_command_and_args.deep_view();
        let ghost groups = argument_groups.deep_view();
        let ghost wrap = |pick: Seq<Token>| command_tokens(shell, prefix + pick);
        let tuples = cartesian_product(argument_groups);
        let ghost all = tuples.deep_view();
        proof {
            lemma_picks_shape(groups);
        }
        for tuple in it: tuples
            invariant
                it.seq() == tuples@,
                all == tuples.deep_view(),
                all == picks(groups),
                groups.len() > 0,
                shell == shell_command_and_args@,
                prefix == first_command_and_args.deep_view(),
                wrap == |pick: Seq<Token>| command_tokens(shell, prefix + pick),
                forall|k: int| 0 <= k < all.len() ==> (#[trigger] all[k]).len() == groups.len(),
                commands.deep_view() == all.take(it.index()).map_values(wrap),
        {
            let ghost at = it.index();
            let mut tuple = tuple;
            let ghost pick = tuple.deep_view();
            assert(pick == all[at]);
            let mut command_and_args = copy_tokens(&first_command_and_args);
            command_and_args.append(&mut tuple);
            assert(command_and_args.deep_view() == prefix + pick);
            // A pick holds a token of each group, so it always makes a command.
            match build_owned_command_and_args(&shell_command_and_args, command_and_args) {
                Some(command) => commands.push(command),
                None => assert(false),
            }
            assert(all.take(at + 1).map_values(wrap) == all.take(at).map_values(wrap).push(
                wrap(pick),
            ));
        }
        commands
    }
}

} // verus!
