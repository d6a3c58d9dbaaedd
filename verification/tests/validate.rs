use std::cell::RefCell;

use program_validation::{validate, Checks, Diagnostic, DiagnosticsResult, Location, Span};

struct Fragment {
    name: &'static str,
    defined: Vec<&'static str>,
    used: Vec<&'static str>,
}

struct Program {
    fragments: Vec<Fragment>,
}

#[derive(Debug, PartialEq)]
struct ConnectionInterface {
    edges: &'static str,
    node: &'static str,
    cursor: &'static str,
    page_info: &'static str,
}

type Log = RefCell<Vec<&'static str>>;

type NoCheck = fn(&Program) -> DiagnosticsResult<()>;

const BUILTIN: [&str; 7] = [
    "disallow_reserved_aliases",
    "validate_unused_variables",
    "validate_unused_fragment_variables",
    "validate_connections",
    "validate_relay_directives",
    "validate_module_names",
    "disallow_typename_on_root",
];

const ADDITIONAL: usize = 7;

fn empty_program() -> Program {
    Program { fragments: Vec::new() }
}

fn interface() -> ConnectionInterface {
    ConnectionInterface { edges: "edges", node: "node", cursor: "cursor", page_info: "pageInfo" }
}

fn diagnostic(message: String, start: u32) -> Diagnostic {
    Diagnostic::error(
        message,
        Location { source: "query.graphql".to_string(), span: Span { start, end: start + 1 } },
    )
}

/// The two diagnostics that the check in `slot` reports where it is made to fail.
fn failure(slot: usize) -> Vec<Diagnostic> {
    vec![
        diagnostic(format!("slot {slot}: first problem"), 100 - slot as u32),
        diagnostic(format!("slot {slot}: second problem"), slot as u32),
    ]
}

fn answers(failing: &[usize]) -> Vec<DiagnosticsResult<()>> {
    (0..8).map(|slot| if failing.contains(&slot) { Err(failure(slot)) } else { Ok(()) }).collect()
}

fn expected(failing: &[usize]) -> DiagnosticsResult<()> {
    let mut diagnostics = Vec::new();
    for slot in 0..8 {
        if failing.contains(&slot) {
            diagnostics.extend(failure(slot));
        }
    }
    if diagnostics.is_empty() {
        Ok(())
    } else {
        Err(diagnostics)
    }
}

fn recorded<'a>(
    log: &'a Log,
    name: &'static str,
    answer: &'a DiagnosticsResult<()>,
) -> impl Fn(&Program) -> DiagnosticsResult<()> + 'a {
    move |_program: &Program| {
        log.borrow_mut().push(name);
        answer.clone()
    }
}

fn suite<'a>(
    log: &'a Log,
    answers: &'a [DiagnosticsResult<()>],
) -> Checks<
    impl Fn(&Program) -> DiagnosticsResult<()> + 'a,
    impl Fn(&Program) -> DiagnosticsResult<()> + 'a,
    impl Fn(&Program) -> DiagnosticsResult<()> + 'a,
    impl Fn(&Program, &ConnectionInterface) -> DiagnosticsResult<()> + 'a,
    impl Fn(&Program) -> DiagnosticsResult<()> + 'a,
    impl Fn(&Program) -> DiagnosticsResult<()> + 'a,
    impl Fn(&Program) -> DiagnosticsResult<()> + 'a,
> {
    Checks {
        disallow_reserved_aliases: recorded(log, BUILTIN[0], &answers[0]),
        validate_unused_variables: recorded(log, BUILTIN[1], &answers[1]),
        validate_unused_fragment_variables: recorded(log, BUILTIN[2], &answers[2]),
        validate_connections: move |_program: &Program, _interface: &ConnectionInterface| {
            log.borrow_mut().push(BUILTIN[3]);
            answers[3].clone()
        },
        validate_relay_directives: recorded(log, BUILTIN[4], &answers[4]),
        validate_module_names: recorded(log, BUILTIN[5], &answers[5]),
        disallow_typename_on_root: recorded(log, BUILTIN[6], &answers[6]),
    }
}

/// Validates an empty program with the checks in `failing` made to fail. The
/// last slot is the caller's own check, supplied only where `with_additional`
/// is set. Returns the result and the names of the checks in call order.
fn run(failing: &[usize], with_additional: bool, skip: bool) -> (DiagnosticsResult<()>, Vec<&'static str>) {
    let log = Log::default();
    let answers = answers(failing);
    let checks = suite(&log, &answers);
    let program = empty_program();
    let additional =
        if with_additional { Some(recorded(&log, "additional", &answers[ADDITIONAL])) } else { None };
    let result = validate(&program, &checks, &interface(), &additional, skip);
    let calls = log.borrow().clone();
    (result, calls)
}

#[test]
fn validate_passes_when_every_check_passes() {
    for with_additional in [false, true] {
        for skip in [false, true] {
            let (result, _) = run(&[], with_additional, skip);
            assert_eq!(result, Ok(()));
        }
    }
}

#[test]
fn validate_reports_exactly_the_diagnostics_of_the_one_failing_check() {
    for slot in 0..8 {
        let (result, _) = run(&[slot], true, false);
        assert_eq!(result, Err(failure(slot)), "slot {slot}");
    }
}

#[test]
fn validate_reports_the_first_builtin_failure_message_for_message() {
    let (result, _) = run(&[0], false, false);
    let diagnostics = result.unwrap_err();
    assert_eq!(diagnostics.len(), 2);
    assert_eq!(diagnostics[0].message(), "slot 0: first problem");
    assert_eq!(diagnostics[0].location().span, Span { start: 100, end: 101 });
    assert_eq!(diagnostics[1].message(), "slot 0: second problem");
    assert_eq!(diagnostics[1].location().span, Span { start: 0, end: 1 });
}

#[test]
fn validate_concatenates_two_failures_in_slot_order() {
    for first in 0..8 {
        for second in (first + 1)..8 {
            let (result, _) = run(&[second, first], true, false);
            let mut diagnostics = failure(first);
            diagnostics.extend(failure(second));
            assert_eq!(result, Err(diagnostics), "slots {first} and {second}");
        }
    }
}

#[test]
fn validate_reports_every_failure_in_the_fixed_order() {
    let all = [0, 1, 2, 3, 4, 5, 6, 7];
    let (result, _) = run(&all, true, false);
    let diagnostics = result.unwrap_err();
    assert_eq!(diagnostics.len(), 16);
    for slot in 0..8 {
        assert_eq!(diagnostics[2 * slot].message(), format!("slot {slot}: first problem"));
        assert_eq!(diagnostics[2 * slot + 1].message(), format!("slot {slot}: second problem"));
    }
}

#[test]
fn validate_runs_every_check_once_in_the_fixed_order() {
    let mut order = BUILTIN.to_vec();
    order.push("additional");
    for failing in [vec![], vec![0], vec![0, 1, 2, 3, 4, 5, 6, 7], vec![3, 7]] {
        let (_, calls) = run(&failing, true, false);
        assert_eq!(calls, order);
    }
}

#[test]
fn validate_without_additional_check_runs_the_builtin_checks_only() {
    let (_, calls) = run(&[1], false, false);
    assert_eq!(calls, BUILTIN.to_vec());
}

#[test]
fn validate_with_skip_passes_a_program_that_fails_only_the_skipped_check() {
    let (strict, _) = run(&[2], false, false);
    assert_eq!(strict, Err(failure(2)));
    let (lenient, _) = run(&[2], false, true);
    assert_eq!(lenient, Ok(()));
    let (lenient_with_additional, _) = run(&[2], true, true);
    assert_eq!(lenient_with_additional, Ok(()));
}

#[test]
fn validate_with_skip_does_not_run_the_skipped_check() {
    let (_, calls) = run(&[2], true, true);
    assert_eq!(
        calls,
        vec![
            "disallow_reserved_aliases",
            "validate_unused_variables",
            "validate_connections",
            "validate_relay_directives",
            "validate_module_names",
            "disallow_typename_on_root",
            "additional",
        ]
    );
}

#[test]
fn validate_with_skip_still_reports_the_other_failures_in_order() {
    let (result, _) = run(&[1, 2, 3, 7], true, true);
    assert_eq!(result, expected(&[1, 3, 7]));
    let (everything, _) = run(&[0, 1, 2, 3, 4, 5, 6, 7], true, true);
    assert_eq!(everything, expected(&[0, 1, 3, 4, 5, 6, 7]));
}

#[test]
fn validate_skip_changes_nothing_where_the_skipped_check_passes() {
    for failing in [vec![], vec![0], vec![6, 7], vec![1, 3, 5]] {
        let (strict, _) = run(&failing, true, false);
        let (lenient, _) = run(&failing, true, true);
        assert_eq!(strict, lenient);
    }
}

#[test]
fn validate_fails_with_exactly_the_diagnostic_of_a_failing_additional_check() {
    let log = Log::default();
    let answers = answers(&[]);
    let checks = suite(&log, &answers);
    let additional = Some(|_program: &Program| -> DiagnosticsResult<()> {
        Err(vec![diagnostic("X".to_string(), 42)])
    });
    for skip in [false, true] {
        let result = validate(&empty_program(), &checks, &interface(), &additional, skip);
        assert_eq!(result, Err(vec![diagnostic("X".to_string(), 42)]));
    }
}

#[test]
fn validate_additional_check_neither_hides_nor_is_hidden_by_builtin_failures() {
    let (result, calls) = run(&[0, 7], true, false);
    assert_eq!(result, expected(&[0, 7]));
    assert_eq!(calls.len(), 8);
    let (passing_additional, _) = run(&[0, 6], true, false);
    assert_eq!(passing_additional, expected(&[0, 6]));
}

#[test]
fn validate_without_additional_check_adds_nothing() {
    for failing in [vec![], vec![2], vec![0, 4], vec![0, 1, 2, 3, 4, 5, 6]] {
        for skip in [false, true] {
            let (without, _) = run(&failing, false, skip);
            let (with_passing, _) = run(&failing, true, skip);
            assert_eq!(without, with_passing);
            let run_slots: Vec<usize> =
                failing.iter().copied().filter(|slot| !(skip && *slot == 2)).collect();
            assert_eq!(without, expected(&run_slots));
        }
    }
}

#[test]
fn validate_without_additional_check_passes_a_valid_program() {
    let (result, _) = run(&[], false, false);
    assert_eq!(result, Ok(()));
    let log = Log::default();
    let answers = answers(&[]);
    let checks = suite(&log, &answers);
    let none: Option<NoCheck> = None;
    assert_eq!(validate(&empty_program(), &checks, &interface(), &none, false), Ok(()));
}

#[test]
fn validate_calls_the_additional_check_once_after_the_builtin_checks() {
    let log = Log::default();
    let answers = answers(&[0, 6]);
    let checks = suite(&log, &answers);
    let program = empty_program();
    let additional = Some(|given: &Program| -> DiagnosticsResult<()> {
        assert!(std::ptr::eq(given, &program));
        assert_eq!(log.borrow().as_slice(), BUILTIN.as_slice());
        log.borrow_mut().push("additional");
        Ok(())
    });
    let result = validate(&program, &checks, &interface(), &additional, false);
    assert_eq!(result, expected(&[0, 6]));
    assert_eq!(log.borrow().iter().filter(|name| **name == "additional").count(), 1);
    assert_eq!(log.borrow().last(), Some(&"additional"));
}

#[test]
fn validate_gives_every_check_the_same_program() {
    let program = Program {
        fragments: vec![Fragment { name: "UserName", defined: vec![], used: vec![] }],
    };
    let seen = RefCell::new(0);
    let same = |given: &Program| -> DiagnosticsResult<()> {
        assert!(std::ptr::eq(given, &program));
        assert_eq!(given.fragments[0].name, "UserName");
        *seen.borrow_mut() += 1;
        Ok(())
    };
    let checks = Checks {
        disallow_reserved_aliases: &same,
        validate_unused_variables: &same,
        validate_unused_fragment_variables: &same,
        validate_connections: |given: &Program, _interface: &ConnectionInterface| same(given),
        validate_relay_directives: &same,
        validate_module_names: &same,
        disallow_typename_on_root: &same,
    };
    let result = validate(&program, &checks, &interface(), &Some(&same), false);
    assert_eq!(result, Ok(()));
    assert_eq!(*seen.borrow(), 8);
}

#[test]
fn validate_hands_the_connection_interface_to_the_connection_check_as_it_got_it() {
    let given = ConnectionInterface {
        edges: "items",
        node: "item",
        cursor: "position",
        page_info: "paging",
    };
    let log = Log::default();
    let pass: DiagnosticsResult<()> = Ok(());
    let checks = Checks {
        disallow_reserved_aliases: recorded(&log, BUILTIN[0], &pass),
        validate_unused_variables: recorded(&log, BUILTIN[1], &pass),
        validate_unused_fragment_variables: recorded(&log, BUILTIN[2], &pass),
        validate_connections: |_program: &Program, received: &ConnectionInterface| {
            assert!(std::ptr::eq(received, &given));
            assert_eq!(
                received,
                &ConnectionInterface {
                    edges: "items",
                    node: "item",
                    cursor: "position",
                    page_info: "paging",
                }
            );
            if received.edges == "edges" {
                Ok(())
            } else {
                Err(vec![diagnostic(format!("no field `{}`", received.edges), 3)])
            }
        },
        validate_relay_directives: recorded(&log, BUILTIN[4], &pass),
        validate_module_names: recorded(&log, BUILTIN[5], &pass),
        disallow_typename_on_root: recorded(&log, BUILTIN[6], &pass),
    };
    let none: Option<NoCheck> = None;
    let result = validate(&empty_program(), &checks, &given, &none, false);
    assert_eq!(result, Err(vec![diagnostic("no field `items`".to_string(), 3)]));
}

#[test]
fn validate_twice_gives_the_same_result() {
    for failing in [vec![], vec![2], vec![0, 3, 7], vec![0, 1, 2, 3, 4, 5, 6, 7]] {
        for skip in [false, true] {
            let log = Log::default();
            let answers = answers(&failing);
            let checks = suite(&log, &answers);
            let program = empty_program();
            let additional = Some(recorded(&log, "additional", &answers[ADDITIONAL]));
            let first = validate(&program, &checks, &interface(), &additional, skip);
            let second = validate(&program, &checks, &interface(), &additional, skip);
            assert_eq!(first, second);
        }
    }
}

#[test]
fn validate_counts_a_failure_without_diagnostics_as_carrying_none() {
    let log = Log::default();
    let none: Option<NoCheck> = None;
    let mut silent = answers(&[]);
    silent[4] = Err(Vec::new());
    let checks = suite(&log, &silent);
    assert_eq!(validate(&empty_program(), &checks, &interface(), &none, false), Ok(()));
    let mut mixed = answers(&[5]);
    mixed[4] = Err(Vec::new());
    let checks = suite(&log, &mixed);
    assert_eq!(
        validate(&empty_program(), &checks, &interface(), &none, false),
        Err(failure(5))
    );
}

/// A small stand-in for the unused-fragment-variable check: it reports every
/// variable that a fragment defines and does not use.
fn unused_fragment_variables(program: &Program) -> DiagnosticsResult<()> {
    let mut diagnostics = Vec::new();
    for fragment in &program.fragments {
        for (index, variable) in fragment.defined.iter().enumerate() {
            if !fragment.used.contains(variable) {
                diagnostics.push(diagnostic(
                    format!("Variable `${}` is never used in fragment `{}`", variable, fragment.name),
                    index as u32,
                ));
            }
        }
    }
    if diagnostics.is_empty() {
        Ok(())
    } else {
        Err(diagnostics)
    }
}

fn pass(_program: &Program) -> DiagnosticsResult<()> {
    Ok(())
}

fn pass_connections(_program: &Program, _interface: &ConnectionInterface) -> DiagnosticsResult<()> {
    Ok(())
}

fn validate_fragments(program: &Program, skip: bool) -> DiagnosticsResult<()> {
    let checks = Checks {
        disallow_reserved_aliases: pass,
        validate_unused_variables: pass,
        validate_unused_fragment_variables: unused_fragment_variables,
        validate_connections: pass_connections,
        validate_relay_directives: pass,
        validate_module_names: pass,
        disallow_typename_on_root: pass,
    };
    let none: Option<NoCheck> = None;
    validate(program, &checks, &interface(), &none, skip)
}

#[test]
fn validate_reports_an_unused_fragment_variable_unless_told_to_skip() {
    let program = Program {
        fragments: vec![
            Fragment { name: "UserName", defined: vec!["x"], used: vec![] },
            Fragment { name: "UserPhoto", defined: vec!["size"], used: vec!["size"] },
        ],
    };
    let diagnostics = validate_fragments(&program, false).unwrap_err();
    assert_eq!(diagnostics.len(), 1);
    assert!(diagnostics[0].message().contains("$x"));
    assert_eq!(diagnostics[0].message(), "Variable `$x` is never used in fragment `UserName`");
    assert_eq!(validate_fragments(&program, true), Ok(()));
}

#[test]
fn validate_passes_a_program_whose_fragment_variables_are_all_used() {
    let program = Program {
        fragments: vec![Fragment { name: "UserPhoto", defined: vec!["size"], used: vec!["size"] }],
    };
    assert_eq!(validate_fragments(&program, false), Ok(()));
    assert_eq!(validate_fragments(&program, true), Ok(()));
    assert_eq!(validate_fragments(&empty_program(), false), Ok(()));
}
