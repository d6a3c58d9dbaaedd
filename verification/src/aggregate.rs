//! The aggregator: it takes the answers of a sequence of checks and merges
//! every failure into one, instead of stopping at the first.

use vstd::prelude::*;
use vstd::seq_lib::lemma_flatten_concat;
use crate::diagnostic::{diagnostics_in, views, well_formed, Diagnostic, DiagnosticsResult};

verus! {

/// Every diagnostic that `items` carry: the lists of the failed items, one
/// after the other, in the order of the items.
pub open spec fn diagnostics_of<T>(items: Seq<DiagnosticsResult<T>>) -> Seq<Diagnostic> {
    items.map_values(|item: DiagnosticsResult<T>| diagnostics_in(item)).flatten()
}

/// The values of the items that succeeded, in the order of the items.
pub open spec fn values_of<T>(items: Seq<DiagnosticsResult<T>>) -> Seq<T> {
    items.filter(|item: DiagnosticsResult<T>| item is Ok).map_values(
        |item: DiagnosticsResult<T>| item->Ok_0,
    )
}

/// Merges the answers of a sequence of checks.
///
/// The result is `Ok` exactly when no item carries a diagnostic, which for
/// well-formed items is when every item is `Ok`; it then holds the values of
/// the items, in order. Otherwise it is `Err` with every diagnostic of every
/// failed item, in the order of the items: never just the first failure.
pub fn try_all<T>(items: Vec<DiagnosticsResult<T>>) -> (result: DiagnosticsResult<Vec<T>>)
    ensures
        result is Ok <==> forall|i: int|
            0 <= i < items@.len() ==> diagnostics_in(#[trigger] items@[i]).len() == 0,
        result matches Ok(values) ==> values@ == values_of(items@),
        result matches Err(diagnostics) ==> diagnostics@ == diagnostics_of(items@),
        well_formed(result),
{
    let mut diagnostics: Vec<Diagnostic> = Vec::new();
    let mut values: Vec<T> = Vec::new();
    let ghost all = items@;
    for item in iter: items
        invariant
            iter.seq() == all,
            diagnostics@ == diagnostics_of(all.take(iter.index() as int)),
            values@ == values_of(all.take(iter.index() as int)),
    {
        proof {
            lemma_step(all, iter.index() as int);
        }
        match item {
            Ok(value) => values.push(value),
            Err(mut found) => diagnostics.append(&mut found),
        }
    }
    proof {
        assert(all.take(all.len() as int) == all);
        lemma_diagnostics_of_none(all);
    }
    if diagnostics.is_empty() {
        Ok(values)
    } else {
        Err(diagnostics)
    }
}

/// One more item adds its diagnostics at the end, and its value if it has one.
proof fn lemma_step<T>(items: Seq<DiagnosticsResult<T>>, i: int)
    requires
        0 <= i < items.len(),
    ensures
        diagnostics_of(items.take(i + 1)) == diagnostics_of(items.take(i)) + diagnostics_in(
            items[i],
        ),
        values_of(items.take(i + 1)) == values_of(items.take(i)) + match items[i] {
            Ok(value) => seq![value],
            Err(_) => Seq::empty(),
        },
{
    let succeeded = |item: DiagnosticsResult<T>| item is Ok;
    assert(items.take(i + 1) =~= items.take(i) + seq![items[i]]);
    lemma_diagnostics_of_concat(items.take(i), seq![items[i]]);
    lemma_diagnostics_of_one(items[i]);
    Seq::filter_distributes_over_add(items.take(i), seq![items[i]], succeeded);
    reveal_with_fuel(Seq::filter, 2);
    assert(seq![items[i]].filter(succeeded) =~= if items[i] is Ok {
        seq![items[i]]
    } else {
        Seq::empty()
    });
    assert(values_of(items.take(i + 1)) =~= values_of(items.take(i)) + match items[i] {
        Ok(value) => seq![value],
        Err(_) => Seq::empty(),
    });
}

/// The diagnostics of a concatenation are those of its two parts, in that
/// order.
pub proof fn lemma_diagnostics_of_concat<T>(
    front: Seq<DiagnosticsResult<T>>,
    back: Seq<DiagnosticsResult<T>>,
)
    ensures
        diagnostics_of(front + back) == diagnostics_of(front) + diagnostics_of(back),
{
    let each = |item: DiagnosticsResult<T>| diagnostics_in(item);
    assert((front + back).map_values(each) =~= front.map_values(each) + back.map_values(each));
    lemma_flatten_concat(front.map_values(each), back.map_values(each));
}

/// One item alone gives exactly its own diagnostics.
pub proof fn lemma_diagnostics_of_one<T>(item: DiagnosticsResult<T>)
    ensures
        diagnostics_of(seq![item]) == diagnostics_in(item),
{
    let each = |item: DiagnosticsResult<T>| diagnostics_in(item);
    assert(seq![item].map_values(each) =~= seq![diagnostics_in(item)]);
    seq![diagnostics_in(item)].lemma_flatten_one_element();
}

/// The diagnostics of the item at `k` stand between those of the items before
/// it and those of the items after it.
pub proof fn lemma_diagnostics_of_split<T>(items: Seq<DiagnosticsResult<T>>, k: int)
    requires
        0 <= k < items.len(),
    ensures
        diagnostics_of(items) == diagnostics_of(items.take(k)) + diagnostics_in(items[k])
            + diagnostics_of(items.skip(k + 1)),
{
    assert(items =~= items.take(k) + seq![items[k]] + items.skip(k + 1));
    lemma_diagnostics_of_concat(items.take(k) + seq![items[k]], items.skip(k + 1));
    lemma_diagnostics_of_concat(items.take(k), seq![items[k]]);
    lemma_diagnostics_of_one(items[k]);
}

/// No diagnostic comes out exactly when no item carries one.
pub proof fn lemma_diagnostics_of_none<T>(items: Seq<DiagnosticsResult<T>>)
    ensures
        diagnostics_of(items).len() == 0 <==> forall|i: int|
            0 <= i < items.len() ==> diagnostics_in(#[trigger] items[i]).len() == 0,
    decreases items.len(),
{
    if items.len() > 0 {
        let k = items.len() - 1;
        let front = items.take(k);
        lemma_diagnostics_of_split(items, k);
        lemma_diagnostics_of_none(front);
        lemma_diagnostics_of_none(items.skip(k + 1));
        if diagnostics_of(items).len() == 0 {
            assert forall|i: int| 0 <= i < items.len() implies diagnostics_in(
                #[trigger] items[i],
            ).len() == 0 by {
                if i < k {
                    assert(items[i] == front[i]);
                }
            }
        } else if diagnostics_of(front).len() != 0 {
            let i = choose|i: int| 0 <= i < k && diagnostics_in(#[trigger] front[i]).len() != 0;
            assert(items[i] == front[i]);
        }
    }
}

/// Where only the item at `k` carries diagnostics, they are all that comes
/// out, in their order.
pub proof fn lemma_diagnostics_of_only<T>(items: Seq<DiagnosticsResult<T>>, k: int)
    requires
        0 <= k < items.len(),
        forall|i: int|
            0 <= i < items.len() && i != k ==> diagnostics_in(#[trigger] items[i]).len() == 0,
    ensures
        diagnostics_of(items) == diagnostics_in(items[k]),
{
    let front = items.take(k);
    let back = items.skip(k + 1);
    assert forall|i: int| 0 <= i < front.len() implies diagnostics_in(#[trigger] front[i]).len()
        == 0 by {
        assert(front[i] == items[i]);
    }
    assert forall|i: int| 0 <= i < back.len() implies diagnostics_in(#[trigger] back[i]).len()
        == 0 by {
        assert(back[i] == items[k + 1 + i]);
    }
    lemma_diagnostics_of_none(front);
    lemma_diagnostics_of_none(back);
    lemma_diagnostics_of_split(items, k);
}

/// Where only the items at `i` and `j`, with `i` before `j`, carry
/// diagnostics, those of `i` come out first and those of `j` after them.
pub proof fn lemma_diagnostics_of_pair<T>(items: Seq<DiagnosticsResult<T>>, i: int, j: int)
    requires
        0 <= i < j < items.len(),
        forall|k: int|
            0 <= k < items.len() && k != i && k != j ==> diagnostics_in(
                #[trigger] items[k],
            ).len() == 0,
    ensures
        diagnostics_of(items) == diagnostics_in(items[i]) + diagnostics_in(items[j]),
{
    let front = items.take(j);
    let back = items.skip(j + 1);
    assert forall|k: int| 0 <= k < front.len() && k != i implies diagnostics_in(
        #[trigger] front[k],
    ).len() == 0 by {
        assert(front[k] == items[k]);
    }
    assert forall|k: int| 0 <= k < back.len() implies diagnostics_in(#[trigger] back[k]).len()
        == 0 by {
        assert(back[k] == items[j + 1 + k]);
    }
    lemma_diagnostics_of_only(front, i);
    lemma_diagnostics_of_none(back);
    lemma_diagnostics_of_split(items, j);
}

/// Items that look the same one by one give diagnostics that look the same.
pub proof fn lemma_diagnostics_of_views<T>(
    first: Seq<DiagnosticsResult<T>>,
    second: Seq<DiagnosticsResult<T>>,
)
    requires
        first.len() == second.len(),
        forall|i: int|
            0 <= i < first.len() ==> views(diagnostics_in(#[trigger] first[i])) == views(
                diagnostics_in(second[i]),
            ),
    ensures
        views(diagnostics_of(first)) == views(diagnostics_of(second)),
    decreases first.len(),
{
    if first.len() > 0 {
        let k = first.len() - 1;
        assert(first =~= first.take(k) + seq![first[k]]);
        assert(second =~= second.take(k) + seq![second[k]]);
        lemma_diagnostics_of_concat(first.take(k), seq![first[k]]);
        lemma_diagnostics_of_concat(second.take(k), seq![second[k]]);
        lemma_diagnostics_of_one(first[k]);
        lemma_diagnostics_of_one(second[k]);
        assert forall|i: int| 0 <= i < k implies views(
            diagnostics_in(#[trigger] first.take(k)[i]),
        ) == views(diagnostics_in(second.take(k)[i])) by {
            assert(first.take(k)[i] == first[i]);
            assert(second.take(k)[i] == second[i]);
        }
        lemma_diagnostics_of_views(first.take(k), second.take(k));
        assert(views(diagnostics_of(first)) =~= views(diagnostics_of(first.take(k))) + views(
            diagnostics_in(first[k]),
        ));
        assert(views(diagnostics_of(second)) =~= views(diagnostics_of(second.take(k))) + views(
            diagnostics_in(second[k]),
        ));
    } else {
        assert(first =~= second);
    }
}

/// Where every item succeeded, the values that come out are those of all the
/// items.
pub proof fn lemma_values_of_all_ok<T>(items: Seq<DiagnosticsResult<T>>)
    requires
        forall|i: int| 0 <= i < items.len() ==> #[trigger] items[i] is Ok,
    ensures
        values_of(items) == items.map_values(|item: DiagnosticsResult<T>| item->Ok_0),
    decreases items.len(),
{
    if items.len() > 0 {
        let k = items.len() - 1;
        let front = items.take(k);
        assert(items.take(k + 1) == items);
        assert forall|i: int| 0 <= i < front.len() implies #[trigger] front[i] is Ok by {
            assert(front[i] == items[i]);
        }
        lemma_values_of_all_ok(front);
        lemma_step(items, k);
    }
    assert(values_of(items) =~= items.map_values(|item: DiagnosticsResult<T>| item->Ok_0));
}

} // verus!
