//! The orchestrator: it assembles the fixed sequence of checks, runs every one
//! of them over the same program, and hands their answers to the aggregator.

use vstd::prelude::*;
use crate::aggregate::{diagnostics_of, try_all};
use crate::diagnostic::{diagnostics_in, well_formed, DiagnosticsResult};

verus! {

/// The built-in checks, in the order in which they are run and in which
/// their diagnostics are reported.
///
/// Each is a function of the program alone, but for the connection check,
/// which also takes the connection interface: the configured names of the
/// fields and arguments that make up the connection pattern.
pub struct Checks<
    ReservedAliases,
    UnusedVariables,
    UnusedFragmentVariables,
    Connections,
    Directives,
    ModuleNames,
    TypenameOnRoot,
> {
    /// Rejects aliases that use a reserved name.
    pub disallow_reserved_aliases: ReservedAliases,
    /// Rejects variables that an operation defines and never uses.
    pub validate_unused_variables: UnusedVariables,
    /// Rejects variables that a fragment defines and never uses. This is the
    /// check that the caller can switch off.
    pub validate_unused_fragment_variables: UnusedFragmentVariables,
    /// Rejects fields that do not have the shape of the connection pattern.
    pub validate_connections: Connections,
    /// Rejects directives that are used where they may not be.
    pub validate_relay_directives: Directives,
    /// Rejects module names that break the naming rules.
    pub validate_module_names: ModuleNames,
    /// Rejects root fields that are not allowed there.
    pub disallow_typename_on_root: TypenameOnRoot,
}

/// The number of built-in checks.
pub const BUILTIN_CHECKS: usize = 7;

/// The position of the unused-fragment-variable check among the slots.
pub const UNUSED_FRAGMENT_VARIABLES: usize = 2;

/// One position of the pipeline, as the set of answers it may give.
pub type Slot = spec_fn(DiagnosticsResult<()>) -> bool;

/// The slot that stands in for a check that is not run: it answers `Ok`.
pub open spec fn passing() -> Slot {
    |outcome: DiagnosticsResult<()>| outcome is Ok
}

/// The slots of the built-in checks on `program`: what each of them may
/// answer, in the fixed order.
pub open spec fn builtin_slots<
    Program,
    Interface,
    ReservedAliases,
    UnusedVariables,
    UnusedFragmentVariables,
    Connections,
    Directives,
    ModuleNames,
    TypenameOnRoot,
>(
    program: &Program,
    checks: &Checks<
        ReservedAliases,
        UnusedVariables,
        UnusedFragmentVariables,
        Connections,
        Directives,
        ModuleNames,
        TypenameOnRoot,
    >,
    connection_interface: &Interface,
) -> Seq<Slot> where
    ReservedAliases: Fn(&Program) -> DiagnosticsResult<()>,
    UnusedVariables: Fn(&Program) -> DiagnosticsResult<()>,
    UnusedFragmentVariables: Fn(&Program) -> DiagnosticsResult<()>,
    Connections: Fn(&Program, &Interface) -> DiagnosticsResult<()>,
    Directives: Fn(&Program) -> DiagnosticsResult<()>,
    ModuleNames: Fn(&Program) -> DiagnosticsResult<()>,
    TypenameOnRoot: Fn(&Program) -> DiagnosticsResult<()>,
 {
    seq![
        |outcome: DiagnosticsResult<()>|
            call_ensures(checks.disallow_reserved_aliases, (program,), outcome),
        |outcome: DiagnosticsResult<()>|
            call_ensures(checks.validate_unused_variables, (program,), outcome),
        |outcome: DiagnosticsResult<()>|
            call_ensures(checks.validate_unused_fragment_variables, (program,), outcome),
        |outcome: DiagnosticsResult<()>|
            call_ensures(checks.validate_connections, (program, connection_interface), outcome),
        |outcome: DiagnosticsResult<()>|
            call_ensures(checks.validate_relay_directives, (program,), outcome),
        |outcome: DiagnosticsResult<()>|
            call_ensures(checks.validate_module_names, (program,), outcome),
        |outcome: DiagnosticsResult<()>|
            call_ensures(checks.disallow_typename_on_root, (program,), outcome),
    ]
}

/// The slot of the caller's own check: what it may answer on `program`, or
/// [`passing`] where the caller supplied none.
pub open spec fn additional_slot<Program, Additional>(
    program: &Program,
    additional_validations: &Option<Additional>,
) -> Slot where Additional: Fn(&Program) -> DiagnosticsResult<()> {
    match additional_validations {
        Some(check) => |outcome: DiagnosticsResult<()>| call_ensures(*check, (program,), outcome),
        None => passing(),
    }
}

/// The built-in slots as they are run: with `skip` set, the slot of the
/// unused-fragment-variable check is replaced by [`passing`], not taken out,
/// so that every other slot keeps its position.
pub open spec fn bypassed(builtin: Seq<Slot>, skip: bool) -> Seq<Slot> {
    if skip {
        builtin.update(UNUSED_FRAGMENT_VARIABLES as int, passing())
    } else {
        builtin
    }
}

/// The whole sequence of slots: the built-in ones, then the caller's.
pub open spec fn pipeline(builtin: Seq<Slot>, additional: Slot, skip: bool) -> Seq<Slot> {
    bypassed(builtin, skip).push(additional)
}

/// `outcomes` holds one answer of each slot, in the order of the slots.
pub open spec fn admits(slots: Seq<Slot>, outcomes: Seq<DiagnosticsResult<()>>) -> bool {
    &&& outcomes.len() == slots.len()
    &&& forall|i: int| 0 <= i < slots.len() ==> slots[i](#[trigger] outcomes[i])
}

/// `result` is what the aggregator makes of `outcomes`: `Ok` exactly when
/// none of them carries a diagnostic, else `Err` with all their diagnostics
/// in the order of the outcomes.
pub open spec fn concludes(
    outcomes: Seq<DiagnosticsResult<()>>,
    result: DiagnosticsResult<()>,
) -> bool {
    &&& result is Ok <==> forall|i: int|
        0 <= i < outcomes.len() ==> diagnostics_in(#[trigger] outcomes[i]).len() == 0
    &&& result matches Err(diagnostics) ==> diagnostics@ == diagnostics_of(outcomes)
}

/// `result` is what a run of `slots` may return: every slot gave an answer,
/// and the result merges all of them.
pub open spec fn validated_by(slots: Seq<Slot>, result: DiagnosticsResult<()>) -> bool {
    exists|outcomes: Seq<DiagnosticsResult<()>>| #[trigger]
        admits(slots, outcomes) && concludes(outcomes, result)
}

/// Runs every check over `program` and returns all their diagnostics together.
///
/// The built-in checks run in their fixed order, then the caller's own check,
/// if there is one; each gets the same `program`, and the connection check
/// gets `connection_interface` as it is. With
/// `skip_unused_fragment_variable_validation` set, the unused-fragment-variable
/// check is not run and its slot counts as a success. No failure keeps a later
/// check from running. The result is `Ok` only if every slot succeeded;
/// otherwise it is `Err` with the diagnostics of every failed slot, in the
/// order of the slots.
///
/// Neither the program nor the connection interface is read here, so both
/// are type parameters. A check is called only where it can be: the
/// `requires` asks that of each check that is run.
pub fn validate<
    Program,
    Interface,
    ReservedAliases,
    UnusedVariables,
    UnusedFragmentVariables,
    Connections,
    Directives,
    ModuleNames,
    TypenameOnRoot,
    Additional,
>(
    program: &Program,
    checks: &Checks<
        ReservedAliases,
        UnusedVariables,
        UnusedFragmentVariables,
        Connections,
        Directives,
        ModuleNames,
        TypenameOnRoot,
    >,
    connection_interface: &Interface,
    additional_validations: &Option<Additional>,
    skip_unused_fragment_variable_validation: bool,
) -> (result: DiagnosticsResult<()>) where
    ReservedAliases: Fn(&Program) -> DiagnosticsResult<()>,
    UnusedVariables: Fn(&Program) -> DiagnosticsResult<()>,
    UnusedFragmentVariables: Fn(&Program) -> DiagnosticsResult<()>,
    Connections: Fn(&Program, &Interface) -> DiagnosticsResult<()>,
    Directives: Fn(&Program) -> DiagnosticsResult<()>,
    ModuleNames: Fn(&Program) -> DiagnosticsResult<()>,
    TypenameOnRoot: Fn(&Program) -> DiagnosticsResult<()>,
    Additional: Fn(&Program) -> DiagnosticsResult<()>,

    requires
        call_requires(checks.disallow_reserved_aliases, (program,)),
        call_requires(checks.validate_unused_variables, (program,)),
        !skip_unused_fragment_variable_validation ==> call_requires(
            checks.validate_unused_fragment_variables,
            (program,),
        ),
        call_requires(checks.validate_connections, (program, connection_interface)),
        call_requires(checks.validate_relay_directives, (program,)),
        call_requires(checks.validate_module_names, (program,)),
        call_requires(checks.disallow_typename_on_root, (program,)),
        additional_validations matches Some(check) ==> call_requires(*check, (program,)),
    ensures
        validated_by(
            pipeline(
                builtin_slots(program, checks, connection_interface),
                additional_slot(program, additional_validations),
                skip_unused_fragment_variable_validation,
            ),
            result,
        ),
        well_formed(result),
{
    let outcomes = vec![
        (checks.disallow_reserved_aliases)(program),
        (checks.validate_unused_variables)(program),
        if skip_unused_fragment_variable_validation {
            Ok(())
        } else {
            (checks.validate_unused_fragment_variables)(program)
        },
        (checks.validate_connections)(program, connection_interface),
        (checks.validate_relay_directives)(program),
        (checks.validate_module_names)(program),
        (checks.disallow_typename_on_root)(program),
        match additional_validations {
            Some(check) => check(program),
            None => Ok(()),
        },
    ];
    proof {
        let slots = pipeline(
            builtin_slots(program, checks, connection_interface),
            additional_slot(program, additional_validations),
            skip_unused_fragment_variable_validation,
        );
        assert(admits(slots, outcomes@));
    }
    match try_all(outcomes) {
        Ok(_) => Ok(()),
        Err(diagnostics) => Err(diagnostics),
    }
}

} // verus!
