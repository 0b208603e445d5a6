//! Splitting a sequence into fields at separator items.
//!
//! A field is a maximal run of consecutive items that are not separators.
//! Fields are never empty: two adjacent separators, or a separator at either
//! end, produce nothing. The same rule cuts a line of text into words at
//! whitespace and an argument list into groups at the separator token.

use vstd::prelude::*;

verus! {

/// The unfinished field at the end of `s`: the longest suffix of `s` that
/// holds no separator.
pub open spec fn open_field<T>(s: Seq<T>, is_separator: spec_fn(T) -> bool) -> Seq<T>
    decreases s.len(),
{
    if s.len() == 0 || is_separator(s.last()) {
        Seq::empty()
    } else {
        open_field(s.drop_last(), is_separator).push(s.last())
    }
}

/// `closed` followed by `open`, unless `open` is empty.
pub open spec fn close_field<T>(closed: Seq<Seq<T>>, open: Seq<T>) -> Seq<Seq<T>> {
    if open.len() == 0 {
        closed
    } else {
        closed.push(open)
    }
}

/// The fields of `s` that a separator has already ended, in order.
pub open spec fn closed_fields<T>(s: Seq<T>, is_separator: spec_fn(T) -> bool) -> Seq<Seq<T>>
    decreases s.len(),
{
    if s.len() == 0 {
        Seq::empty()
    } else if is_separator(s.last()) {
        close_field(
            closed_fields(s.drop_last(), is_separator),
            open_field(s.drop_last(), is_separator),
        )
    } else {
        closed_fields(s.drop_last(), is_separator)
    }
}

/// All fields of `s`, in order: those a separator ended, then the one the end
/// of `s` ends, if it is not empty.
pub open spec fn fields<T>(s: Seq<T>, is_separator: spec_fn(T) -> bool) -> Seq<Seq<T>> {
    close_field(closed_fields(s, is_separator), open_field(s, is_separator))
}

/// No item of `s` is a separator.
pub open spec fn separator_free<T>(s: Seq<T>, is_separator: spec_fn(T) -> bool) -> bool {
    forall|i: int| 0 <= i < s.len() ==> !is_separator(#[trigger] s[i])
}

/// Every item of `s` is a separator.
pub open spec fn all_separators<T>(s: Seq<T>, is_separator: spec_fn(T) -> bool) -> bool {
    forall|i: int| 0 <= i < s.len() ==> is_separator(#[trigger] s[i])
}

/// How the fields grow when one item is appended.
pub proof fn lemma_fields_push<T>(s: Seq<T>, item: T, is_separator: spec_fn(T) -> bool)
    ensures
        is_separator(item) ==> closed_fields(s.push(item), is_separator) == fields(
            s,
            is_separator,
        ),
        is_separator(item) ==> open_field(s.push(item), is_separator) == Seq::<T>::empty(),
        !is_separator(item) ==> closed_fields(s.push(item), is_separator) == closed_fields(
            s,
            is_separator,
        ),
        !is_separator(item) ==> open_field(s.push(item), is_separator) == open_field(
            s,
            is_separator,
        ).push(item),
{
    assert(s.push(item).drop_last() == s);
}

/// Appending a run without separators only lengthens the unfinished field.
pub proof fn lemma_fields_append_items<T>(s: Seq<T>, run: Seq<T>, is_separator: spec_fn(T) -> bool)
    requires
        separator_free(run, is_separator),
    ensures
        closed_fields(s + run, is_separator) == closed_fields(s, is_separator),
        open_field(s + run, is_separator) == open_field(s, is_separator) + run,
    decreases run.len(),
{
    if run.len() > 0 {
        let shorter = run.drop_last();
        lemma_fields_append_items(s, shorter, is_separator);
        lemma_fields_push(s + shorter, run.last(), is_separator);
        assert((s + shorter).push(run.last()) == s + run);
    }
}

/// Appending a non-empty run of separators ends the unfinished field and
/// starts no new one.
pub proof fn lemma_fields_append_separators<T>(
    s: Seq<T>,
    run: Seq<T>,
    is_separator: spec_fn(T) -> bool,
)
    requires
        run.len() > 0,
        all_separators(run, is_separator),
    ensures
        closed_fields(s + run, is_separator) == fields(s, is_separator),
        open_field(s + run, is_separator) == Seq::<T>::empty(),
        fields(s + run, is_separator) == fields(s, is_separator),
    decreases run.len(),
{
    let shorter = run.drop_last();
    assert((s + shorter).push(run.last()) == s + run);
    lemma_fields_push(s + shorter, run.last(), is_separator);
    if shorter.len() > 0 {
        lemma_fields_append_separators(s, shorter, is_separator);
    }
}

/// A non-empty sequence without separators is a single field.
pub proof fn lemma_fields_of_separator_free<T>(s: Seq<T>, is_separator: spec_fn(T) -> bool)
    requires
        separator_free(s, is_separator),
    ensures
        s.len() > 0 ==> fields(s, is_separator) == seq![s],
        s.len() == 0 ==> fields(s, is_separator) == Seq::<Seq<T>>::empty(),
{
    lemma_fields_append_items(Seq::<T>::empty(), s, is_separator);
}

/// Fields on either side of one separator do not influence each other.
pub proof fn lemma_fields_split_at_separator<T>(
    left: Seq<T>,
    separator: T,
    right: Seq<T>,
    is_separator: spec_fn(T) -> bool,
)
    requires
        is_separator(separator),
    ensures
        fields(left.push(separator) + right, is_separator) == fields(left, is_separator) + fields(
            right,
            is_separator,
        ),
        closed_fields(left.push(separator) + right, is_separator) == fields(left, is_separator)
            + closed_fields(right, is_separator),
        open_field(left.push(separator) + right, is_separator) == open_field(right, is_separator),
    decreases right.len(),
{
    if right.len() == 0 {
        lemma_fields_push(left, separator, is_separator);
    } else {
        let shorter = right.drop_last();
        lemma_fields_split_at_separator(left, separator, shorter, is_separator);
        lemma_fields_push(left.push(separator) + shorter, right.last(), is_separator);
        assert(shorter.push(right.last()) == right);
        lemma_fields_push(shorter, right.last(), is_separator);
    }
}

/// The unfinished field holds no separator.
pub proof fn lemma_open_field_is_run<T>(s: Seq<T>, is_separator: spec_fn(T) -> bool)
    ensures
        separator_free(open_field(s, is_separator), is_separator),
    decreases s.len(),
{
    if s.len() > 0 && !is_separator(s.last()) {
        lemma_open_field_is_run(s.drop_last(), is_separator);
    }
}

/// A sequence of non-empty runs without separators.
pub open spec fn all_runs<T>(parts: Seq<Seq<T>>, is_separator: spec_fn(T) -> bool) -> bool {
    forall|k: int|
        0 <= k < parts.len() ==> (#[trigger] parts[k]).len() > 0 && separator_free(
            parts[k],
            is_separator,
        )
}

/// Every field is non-empty and holds no separator.
pub proof fn lemma_fields_are_runs<T>(s: Seq<T>, is_separator: spec_fn(T) -> bool)
    ensures
        all_runs(closed_fields(s, is_separator), is_separator),
        all_runs(fields(s, is_separator), is_separator),
    decreases s.len(),
{
    lemma_open_field_is_run(s, is_separator);
    if s.len() > 0 {
        lemma_fields_are_runs(s.drop_last(), is_separator);
    }
}

} // verus!
