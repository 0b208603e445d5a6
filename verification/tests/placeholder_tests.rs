use rust_parallel::parser::placeholders::{argument_resolves, reference_resolves};

fn names(items: &[Option<&str>]) -> Vec<Option<String>> {
    items.iter().map(|item| item.map(|name| name.to_string())).collect()
}

#[test]
fn number_resolves_below_the_group_count() {
    let none = names(&[None, None, None]);
    assert!(reference_resolves("0", 3, &none));
    assert!(reference_resolves("2", 3, &none));
    assert!(!reference_resolves("3", 3, &none));
    assert!(!reference_resolves("10", 3, &none));
    assert!(reference_resolves("10", 11, &none));
    assert!(!reference_resolves("0", 0, &none));
}

#[test]
fn number_with_leading_zeros() {
    let none = names(&[None, None]);
    assert!(reference_resolves("00", 2, &none));
    assert!(reference_resolves("001", 2, &none));
    assert!(!reference_resolves("002", 2, &none));
}

#[test]
fn number_too_large_for_the_machine_does_not_resolve() {
    let none = names(&[None]);
    assert!(!reference_resolves("18446744073709551616", usize::MAX, &none));
    assert!(!reference_resolves("99999999999999999999999999999", usize::MAX, &none));
    assert!(reference_resolves("18446744073709551614", usize::MAX, &none));
    assert!(!reference_resolves("18446744073709551615", usize::MAX, &none));
}

#[test]
fn name_resolves_when_a_group_has_it() {
    let groups = names(&[None, Some("arg1"), None, Some("arg2")]);
    assert!(reference_resolves("arg1", 4, &groups));
    assert!(reference_resolves("arg2", 4, &groups));
    assert!(!reference_resolves("arg3", 4, &groups));
    assert!(!reference_resolves("arg", 4, &groups));
    assert!(!reference_resolves("", 4, &groups));
    assert!(!reference_resolves("1a", 4, &groups));
    assert!(!reference_resolves("\u{661}", 4, &groups));
}

#[test]
fn digits_are_a_number_even_if_a_group_is_named_so() {
    let groups = names(&[None, Some("7")]);
    assert!(!reference_resolves("7", 2, &groups));
    assert!(reference_resolves("1", 2, &groups));
}

#[test]
fn argument_without_braces_resolves() {
    let none = names(&[None]);
    assert!(argument_resolves("", 1, &none));
    assert!(argument_resolves("echo", 1, &none));
    assert!(argument_resolves("a } b", 1, &none));
    assert!(argument_resolves("$1", 1, &none));
}

#[test]
fn argument_resolves_when_every_placeholder_does() {
    let groups = names(&[None, Some("arg1"), None]);
    assert!(argument_resolves("{0}", 3, &groups));
    assert!(argument_resolves("{1} {2}", 3, &groups));
    assert!(argument_resolves("arg1={arg1}", 3, &groups));
    assert!(argument_resolves("{0}}{arg1}", 3, &groups));
    assert!(!argument_resolves("{3}", 3, &groups));
    assert!(!argument_resolves("{1} {3}", 3, &groups));
    assert!(!argument_resolves("{3} {1}", 3, &groups));
    assert!(!argument_resolves("{arg2}", 3, &groups));
    assert!(!argument_resolves("{}", 3, &groups));
}

#[test]
fn reference_ends_at_the_next_closing_brace() {
    let groups = names(&[None, Some("a")]);
    assert!(!argument_resolves("{{a}", 2, &groups));
    assert!(!argument_resolves("{a{a}", 2, &groups));
    assert!(argument_resolves("{a}}", 2, &groups));
    assert!(!argument_resolves("{ a}", 2, &groups));
}

#[test]
fn brace_that_is_not_closed_does_not_resolve() {
    let groups = names(&[None, Some("a")]);
    assert!(!argument_resolves("{", 2, &groups));
    assert!(!argument_resolves("{a", 2, &groups));
    assert!(!argument_resolves("{a} {", 2, &groups));
    assert!(!argument_resolves("{a} {1", 2, &groups));
}
