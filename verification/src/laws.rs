//! What holds of every run of the orchestrator, stated over the slots that
//! it assembled and proved from its contract.

use vstd::prelude::*;
use crate::aggregate::{
    diagnostics_of, lemma_diagnostics_of_only, lemma_diagnostics_of_pair,
    lemma_diagnostics_of_split, lemma_diagnostics_of_views,
};
use crate::diagnostic::{diagnostics_in, observable, views, DiagnosticView, DiagnosticsResult};
use crate::validate::{
    additional_slot, admits, bypassed, concludes, pipeline, validated_by, Slot, BUILTIN_CHECKS,
    UNUSED_FRAGMENT_VARIABLES,
};

verus! {

/// Every answer of `slot` is `Ok`.
pub open spec fn succeeds(slot: Slot) -> bool {
    forall|outcome: DiagnosticsResult<()>| #[trigger] slot(outcome) ==> outcome is Ok
}

/// Every answer of `slot` is an `Err` whose diagnostics look like
/// `diagnostics`.
pub open spec fn fails_with(slot: Slot, diagnostics: Seq<DiagnosticView>) -> bool {
    forall|outcome: DiagnosticsResult<()>| #[trigger]
        slot(outcome) ==> observable(outcome) == Err::<(), Seq<DiagnosticView>>(diagnostics)
}

/// Any two answers of `slot` look the same to a caller.
pub open spec fn deterministic(slot: Slot) -> bool {
    forall|first: DiagnosticsResult<()>, second: DiagnosticsResult<()>|
        #[trigger] slot(first) && #[trigger] slot(second) ==> observable(first) == observable(
            second,
        )
}

/// The answers behind a result of `slots`.
proof fn answers(slots: Seq<Slot>, result: DiagnosticsResult<()>) -> (outcomes: Seq<
    DiagnosticsResult<()>,
>)
    requires
        validated_by(slots, result),
    ensures
        admits(slots, outcomes),
        concludes(outcomes, result),
{
    choose|outcomes: Seq<DiagnosticsResult<()>>| #[trigger]
        admits(slots, outcomes) && concludes(outcomes, result)
}

/// Where every check succeeds, validation succeeds.
pub proof fn lemma_valid_program_passes(slots: Seq<Slot>, result: DiagnosticsResult<()>)
    requires
        validated_by(slots, result),
        forall|i: int| 0 <= i < slots.len() ==> succeeds(#[trigger] slots[i]),
    ensures
        result is Ok,
{
    let outcomes = answers(slots, result);
    assert(forall|i: int| 0 <= i < outcomes.len() ==> (#[trigger] outcomes[i]) is Ok);
}

/// Where the check at `k` fails with `diagnostics` and every other check
/// succeeds, validation fails with exactly `diagnostics`, in their order.
pub proof fn lemma_single_failure(
    slots: Seq<Slot>,
    k: int,
    diagnostics: Seq<DiagnosticView>,
    result: DiagnosticsResult<()>,
)
    requires
        validated_by(slots, result),
        0 <= k < slots.len(),
        diagnostics.len() > 0,
        fails_with(slots[k], diagnostics),
        forall|i: int| 0 <= i < slots.len() && i != k ==> succeeds(#[trigger] slots[i]),
    ensures
        observable(result) == Err::<(), Seq<DiagnosticView>>(diagnostics),
{
    let outcomes = answers(slots, result);
    assert(forall|i: int| 0 <= i < outcomes.len() && i != k ==> (#[trigger] outcomes[i]) is Ok);
    lemma_diagnostics_of_only(outcomes, k);
}

/// Where the checks at `i` and `j`, with `i` before `j`, fail and every other
/// check succeeds, validation fails with the diagnostics of `i` followed by
/// those of `j`.
pub proof fn lemma_two_failures(
    slots: Seq<Slot>,
    i: int,
    j: int,
    first: Seq<DiagnosticView>,
    second: Seq<DiagnosticView>,
    result: DiagnosticsResult<()>,
)
    requires
        validated_by(slots, result),
        0 <= i < j < slots.len(),
        first.len() > 0,
        second.len() > 0,
        fails_with(slots[i], first),
        fails_with(slots[j], second),
        forall|k: int| 0 <= k < slots.len() && k != i && k != j ==> succeeds(#[trigger] slots[k]),
    ensures
        observable(result) == Err::<(), Seq<DiagnosticView>>(first + second),
{
    let outcomes = answers(slots, result);
    assert(forall|k: int|
        0 <= k < outcomes.len() && k != i && k != j ==> (#[trigger] outcomes[k]) is Ok);
    lemma_diagnostics_of_pair(outcomes, i, j);
    assert(views(diagnostics_of(outcomes)) =~= first + second);
}

/// Whatever the other checks answer, the diagnostics of an earlier failed
/// check stand before those of a later one in the combined failure.
pub proof fn lemma_failures_keep_slot_order(
    slots: Seq<Slot>,
    i: int,
    j: int,
    first: Seq<DiagnosticView>,
    second: Seq<DiagnosticView>,
    result: DiagnosticsResult<()>,
)
    requires
        validated_by(slots, result),
        0 <= i < j < slots.len(),
        first.len() > 0,
        second.len() > 0,
        fails_with(slots[i], first),
        fails_with(slots[j], second),
    ensures
        result matches Err(found) && exists|
            before: Seq<DiagnosticView>,
            between: Seq<DiagnosticView>,
            after: Seq<DiagnosticView>,
        | views(found@) == before + first + between + second + after,
{
    let outcomes = answers(slots, result);
    let rest = outcomes.skip(i + 1);
    let at = j - i - 1;
    lemma_diagnostics_of_split(outcomes, i);
    lemma_diagnostics_of_split(rest, at);
    let before = views(diagnostics_of(outcomes.take(i)));
    let between = views(diagnostics_of(rest.take(at)));
    let after = views(diagnostics_of(rest.skip(at + 1)));
    assert(views(diagnostics_of(outcomes)) =~= before + first + between + second + after);
}

/// With the flag set, a program whose only failing check would be the
/// unused-fragment-variable check passes validation: that check is not asked.
pub proof fn lemma_skipped_check_cannot_fail(
    builtin: Seq<Slot>,
    additional: Slot,
    result: DiagnosticsResult<()>,
)
    requires
        builtin.len() == BUILTIN_CHECKS,
        validated_by(pipeline(builtin, additional, true), result),
        forall|i: int|
            0 <= i < builtin.len() && i != UNUSED_FRAGMENT_VARIABLES ==> succeeds(
                #[trigger] builtin[i],
            ),
        succeeds(additional),
    ensures
        result is Ok,
{
    lemma_valid_program_passes(pipeline(builtin, additional, true), result);
}

/// Where the caller supplies a check of its own that always fails with the
/// one diagnostic `diagnostic`, and every built-in check that is run
/// succeeds, validation fails with exactly that diagnostic.
pub proof fn lemma_additional_failure<Program, Additional>(
    program: &Program,
    builtin: Seq<Slot>,
    additional_validations: &Option<Additional>,
    skip: bool,
    diagnostic: DiagnosticView,
    result: DiagnosticsResult<()>,
) where Additional: Fn(&Program) -> DiagnosticsResult<()>
    requires
        builtin.len() == BUILTIN_CHECKS,
        additional_validations is Some,
        validated_by(
            pipeline(builtin, additional_slot(program, additional_validations), skip),
            result,
        ),
        forall|i: int|
            0 <= i < builtin.len() ==> succeeds(#[trigger] bypassed(builtin, skip)[i]),
        fails_with(additional_slot(program, additional_validations), seq![diagnostic]),
    ensures
        observable(result) == Err::<(), Seq<DiagnosticView>>(seq![diagnostic]),
{
    let slots = pipeline(builtin, additional_slot(program, additional_validations), skip);
    lemma_single_failure(slots, builtin.len() as int, seq![diagnostic], result);
}

/// Where the caller supplies no check of its own, the result is one that the
/// built-in checks alone give: nothing is added to it, and where they all
/// succeed, so does validation.
pub proof fn lemma_no_additional<Program, Additional>(
    program: &Program,
    builtin: Seq<Slot>,
    additional_validations: &Option<Additional>,
    skip: bool,
    result: DiagnosticsResult<()>,
) where Additional: Fn(&Program) -> DiagnosticsResult<()>
    requires
        builtin.len() == BUILTIN_CHECKS,
        additional_validations is None,
        validated_by(
            pipeline(builtin, additional_slot(program, additional_validations), skip),
            result,
        ),
    ensures
        validated_by(bypassed(builtin, skip), result),
        (forall|i: int| 0 <= i < builtin.len() ==> succeeds(#[trigger] bypassed(builtin, skip)[i]))
            ==> result is Ok,
{
    let run = bypassed(builtin, skip);
    let slots = pipeline(builtin, additional_slot(program, additional_validations), skip);
    let outcomes = answers(slots, result);
    let last = run.len() as int;
    let front = outcomes.take(last);
    assert(admits(run, front));
    lemma_diagnostics_of_split(outcomes, last);
    assert(concludes(front, result)) by {
        if result is Err {
            let i = choose|i: int|
                0 <= i < outcomes.len() && diagnostics_in(#[trigger] outcomes[i]).len() != 0;
            assert(front[i] == outcomes[i]);
        }
    }
    if forall|i: int| 0 <= i < builtin.len() ==> succeeds(#[trigger] bypassed(builtin, skip)[i]) {
        lemma_valid_program_passes(run, result);
    }
}

/// Validation keeps no state: where no check can answer one program in two
/// ways, two runs over it return results that look the same.
pub proof fn lemma_validate_is_repeatable(
    slots: Seq<Slot>,
    first: DiagnosticsResult<()>,
    second: DiagnosticsResult<()>,
)
    requires
        forall|i: int| 0 <= i < slots.len() ==> deterministic(#[trigger] slots[i]),
        validated_by(slots, first),
        validated_by(slots, second),
    ensures
        observable(first) == observable(second),
{
    let one = answers(slots, first);
    let two = answers(slots, second);
    assert forall|i: int| 0 <= i < one.len() implies views(diagnostics_in(#[trigger] one[i]))
        == views(diagnostics_in(two[i])) by {
        assert(observable(one[i]) == observable(two[i]));
    }
    lemma_diagnostics_of_views(one, two);
    if first is Ok {
        assert forall|i: int| 0 <= i < two.len() implies diagnostics_in(#[trigger] two[i]).len()
            == 0 by {
            assert(views(diagnostics_in(one[i])).len() == 0);
        }
    }
    if second is Ok {
        assert forall|i: int| 0 <= i < one.len() implies diagnostics_in(#[trigger] one[i]).len()
            == 0 by {
            assert(views(diagnostics_in(two[i])).len() == 0);
        }
    }
}

} // verus!
