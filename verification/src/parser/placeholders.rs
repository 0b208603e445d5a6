//! The `{ref}` placeholders of a command argument, and whether they stand
//! for capture groups of a pattern.
//!
//! A placeholder is an opening brace, the reference, and the next closing
//! brace. A reference made of digits is the number of a group; any other
//! reference is the name of a group. An opening brace that is never closed
//! starts a placeholder that stands for nothing.

use crate::text::has_opening_brace;
use vstd::prelude::*;

verus! {

broadcast use vstd::string::group_string_axioms;

/// The reference that is being read at the end of `text`: the characters
/// since an opening brace that no closing brace has followed yet. `None`
/// where the end of `text` is outside any braces.
pub open spec fn open_reference(text: Seq<char>) -> Option<Seq<char>>
    decreases text.len(),
{
    if text.len() == 0 {
        None
    } else {
        match open_reference(text.drop_last()) {
            None => if text.last() == '{' {
                Some(Seq::empty())
            } else {
                None
            },
            Some(reference) => if text.last() == '}' {
                None
            } else {
                Some(reference.push(text.last()))
            },
        }
    }
}

/// The references of the placeholders of `text`, in order.
pub open spec fn references(text: Seq<char>) -> Seq<Seq<char>>
    decreases text.len(),
{
    if text.len() == 0 {
        Seq::empty()
    } else {
        match open_reference(text.drop_last()) {
            None => references(text.drop_last()),
            Some(reference) => if text.last() == '}' {
                references(text.drop_last()).push(reference)
            } else {
                references(text.drop_last())
            },
        }
    }
}

/// One of the digits `0` to `9`.
pub open spec fn is_digit(c: char) -> bool {
    '0' <= c && c <= '9'
}

/// Every character is a digit.
pub open spec fn all_digits(text: Seq<char>) -> bool {
    forall|i: int| 0 <= i < text.len() ==> is_digit(#[trigger] text[i])
}

/// The number that a digit stands for.
pub open spec fn digit_value(c: char) -> nat {
    (c as u32 - '0' as u32) as nat
}

/// The number that a sequence of digits stands for, in decimal.
pub open spec fn index_value(digits: Seq<char>) -> nat
    decreases digits.len(),
{
    if digits.len() == 0 {
        0
    } else {
        index_value(digits.drop_last()) * 10 + digit_value(digits.last())
    }
}

/// The reference is the number of a group: it is made of digits only, and
/// of at least one.
pub open spec fn is_index(reference: Seq<char>) -> bool {
    reference.len() > 0 && all_digits(reference)
}

/// The reference stands for a group of a pattern with `group_count` groups,
/// the whole match being group 0, whose names are `group_names`: as a
/// number it is below the count, as a name it is the name of a group.
pub open spec fn resolves(
    reference: Seq<char>,
    group_count: nat,
    group_names: Seq<Option<Seq<char>>>,
) -> bool {
    if is_index(reference) {
        index_value(reference) < group_count
    } else {
        group_names.contains(Some(reference))
    }
}

/// Every one of the references stands for a group.
pub open spec fn all_resolve(
    references: Seq<Seq<char>>,
    group_count: nat,
    group_names: Seq<Option<Seq<char>>>,
) -> bool {
    forall|i: int|
        0 <= i < references.len() ==> resolves(#[trigger] references[i], group_count, group_names)
}

/// Every placeholder of the argument stands for a group: each opening brace
/// outside a placeholder is closed, and each reference resolves.
pub open spec fn placeholders_resolve(
    argument: Seq<char>,
    group_count: nat,
    group_names: Seq<Option<Seq<char>>>,
) -> bool {
    open_reference(argument) is None && all_resolve(references(argument), group_count, group_names)
}

/// An argument without an opening brace has no placeholder, so that all its
/// placeholders resolve.
pub proof fn lemma_no_brace_no_reference(text: Seq<char>)
    requires
        !has_opening_brace(text),
    ensures
        open_reference(text) is None,
        references(text) == Seq::<Seq<char>>::empty(),
        forall|group_count: nat, group_names: Seq<Option<Seq<char>>>|
            placeholders_resolve(text, group_count, group_names),
    decreases text.len(),
{
    if text.len() > 0 {
        assert forall|i: int| 0 <= i < text.drop_last().len() implies text.drop_last()[i]
            != '{' by {
            assert(text[i] == text.drop_last()[i]);
        }
        lemma_no_brace_no_reference(text.drop_last());
    }
}

/// Whether the reference stands for a group.
pub fn reference_resolves(
    reference: &str,
    group_count: usize,
    group_names: &Vec<Option<String>>,
) -> (resolved: bool)
    ensures
        resolved == resolves(reference@, group_count as nat, group_names.deep_view()),
{
    let mut digits = true;
    let mut below = true;
    let mut value: usize = 0;
    for c in it: reference.chars()
        invariant
            it.seq() == reference@,
            digits == all_digits(reference@.take(it.index())),
            digits && below ==> value == index_value(reference@.take(it.index())) && (value
                < group_count || it.index() == 0),
            digits && !below ==> index_value(reference@.take(it.index())) >= group_count,
    {
        proof {
            let at = it.index();
            assert(reference@.take(at + 1).drop_last() == reference@.take(at));
            assert(reference@.take(at + 1).last() == c);
            if all_digits(reference@.take(at + 1)) {
                assert forall|i: int| 0 <= i < at implies is_digit(
                    #[trigger] reference@.take(at)[i],
                ) by {
                    assert(reference@.take(at + 1)[i] == reference@.take(at)[i]);
                }
            }
            if all_digits(reference@.take(at)) && is_digit(c) {
                assert forall|i: int| 0 <= i < at + 1 implies is_digit(
                    #[trigger] reference@.take(at + 1)[i],
                ) by {
                    if i < at {
                        assert(reference@.take(at)[i] == reference@.take(at + 1)[i]);
                    }
                }
            }
        }
        if digits && c >= '0' && c <= '9' {
            let digit = (c as u32 - '0' as u32) as usize;
            if below {
                if value > (usize::MAX - digit) / 10 {
                    below = false;
                } else {
                    value = value * 10 + digit;
                    if value >= group_count {
                        below = false;
                    }
                }
            }
        } else {
            digits = false;
        }
    }
    assert(reference@.take(reference@.len() as int) == reference@);
    if digits && !reference.is_empty() {
        return below;
    }
    let mut i: usize = 0;
    while i < group_names.len()
        invariant
            i <= group_names.len(),
            !is_index(reference@),
            forall|k: int| 0 <= k < i ==> group_names.deep_view()[k] != Some(reference@),
        decreases group_names.len() - i,
    {
        match &group_names[i] {
            Some(name) => {
                if name.as_str().eq(reference) {
                    assert(group_names.deep_view()[i as int] == Some(reference@));
                    return true;
                }
            },
            None => {},
        }
        i += 1;
    }
    false
}

/// Whether every placeholder of the argument stands for a group.
pub fn argument_resolves(
    argument: &str,
    group_count: usize,
    group_names: &Vec<Option<String>>,
) -> (resolved: bool)
    ensures
        resolved == placeholders_resolve(
            argument@,
            group_count as nat,
            group_names.deep_view(),
        ),
{
    let mut resolved = true;
    let mut inside = false;
    let mut reference = String::new();
    for c in it: argument.chars()
        invariant
            it.seq() == argument@,
            inside == (open_reference(argument@.take(it.index())) is Some),
            inside ==> open_reference(argument@.take(it.index())) == Some(reference@),
            resolved == all_resolve(
                references(argument@.take(it.index())),
                group_count as nat,
                group_names.deep_view(),
            ),
    {
        let ghost before = references(argument@.take(it.index()));
        proof {
            let at = it.index();
            assert(argument@.take(at + 1).drop_last() == argument@.take(at));
        }
        if inside {
            if c == '}' {
                if !reference_resolves(reference.as_str(), group_count, group_names) {
                    resolved = false;
                }
                proof {
                    let after = before.push(reference@);
                    assert(after[before.len() as int] == reference@);
                    if all_resolve(after, group_count as nat, group_names.deep_view()) {
                        assert forall|i: int| 0 <= i < before.len() implies resolves(
                            #[trigger] before[i],
                            group_count as nat,
                            group_names.deep_view(),
                        ) by {
                            assert(after[i] == before[i]);
                        }
                    }
                }
                inside = false;
                reference = String::new();
            } else {
                reference.push(c);
            }
        } else if c == '{' {
            inside = true;
            reference = String::new();
        }
    }
    assert(argument@.take(argument@.len() as int) == argument@);
    resolved && !inside
}

} // verus!
