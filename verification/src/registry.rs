//! The registry aggregator: one id-indexed group table over all documents.
//!
//! Groups loaded from every document are merged in load order into one
//! table. A group id that is already present is a duplicate: the later
//! definition is discarded (the first wins), one error diagnostic is
//! emitted, and aggregation continues with the remaining groups.

use vstd::prelude::*;

use crate::diag::DiagnosticResult;
use crate::lookup::find_group;
use crate::lookup::find_id;
use crate::lookup::group_ids;
use crate::model::diags_view;
use crate::model::lemma_diags_view_push;
use crate::model::lemma_raw_groups_view_push;
use crate::model::raw_groups_view;
use crate::model::Diagnostic;
use crate::model::DiagnosticCode;
use crate::model::RawGroup;
use crate::model::Severity;
use crate::model::SpecDiagnostic;
use crate::model::SpecRawGroup;

verus! {

/// The error diagnostic a duplicate group id yields, charged to the
/// discarded later definition.
pub open spec fn dup_diag(g: SpecRawGroup) -> SpecDiagnostic {
    SpecDiagnostic {
        severity: Severity::Error,
        code: DiagnosticCode::DuplicateGroupId,
        doc_id: g.doc_id,
        group_id: g.id,
        subject: Option::None,
        related: Seq::empty(),
    }
}

/// The table built from the first `n` loaded groups: each group is kept
/// unless its id is already present.
pub open spec fn aggregate_groups(gs: Seq<SpecRawGroup>, n: int) -> Seq<SpecRawGroup>
    decreases n,
{
    if n <= 0 {
        Seq::empty()
    } else {
        let prefix = aggregate_groups(gs, n - 1);
        if find_id(group_ids(prefix), gs[n - 1].id) is Some {
            prefix
        } else {
            prefix.push(gs[n - 1])
        }
    }
}

/// The duplicate-id diagnostics of the first `n` loaded groups, in load
/// order: one error per discarded group.
pub open spec fn aggregate_diags(gs: Seq<SpecRawGroup>, n: int) -> Seq<SpecDiagnostic>
    decreases n,
{
    if n <= 0 {
        Seq::empty()
    } else {
        let prefix = aggregate_diags(gs, n - 1);
        if find_id(group_ids(aggregate_groups(gs, n - 1)), gs[n - 1].id) is Some {
            prefix.push(dup_diag(gs[n - 1]))
        } else {
            prefix
        }
    }
}

/// How often an id occurs in a group list.
pub open spec fn count_id(gs: Seq<SpecRawGroup>, x: Seq<char>) -> nat
    decreases gs.len(),
{
    if gs.len() == 0 {
        0
    } else {
        count_id(gs.drop_last(), x) + (if gs.last().id == x {
            1nat
        } else {
            0nat
        })
    }
}

/// How often a duplicate-id diagnostic for an id occurs in a diagnostic
/// list.
pub open spec fn count_dup_diags(ds: Seq<SpecDiagnostic>, x: Seq<char>) -> nat
    decreases ds.len(),
{
    if ds.len() == 0 {
        0
    } else {
        count_dup_diags(ds.drop_last(), x) + (if ds.last().code == DiagnosticCode::DuplicateGroupId
            && ds.last().group_id == x {
            1nat
        } else {
            0nat
        })
    }
}

/// An id is found in a table exactly when some entry carries it.
proof fn lemma_find_id_count(gs: Seq<SpecRawGroup>, x: Seq<char>)
    ensures
        (find_id(group_ids(gs), x) is Some) == (count_id(gs, x) > 0),
    decreases gs.len(),
{
    crate::lookup::lemma_find_id_properties(group_ids(gs), x);
    if gs.len() > 0 {
        lemma_find_id_count(gs.drop_last(), x);
        crate::lookup::lemma_find_id_properties(group_ids(gs.drop_last()), x);
        assert(forall|j: int|
            0 <= j < gs.len() - 1 ==> #[trigger] group_ids(gs.drop_last())[j] == group_ids(gs)[j]);
        if count_id(gs, x) > 0 {
            if gs.last().id == x {
                assert(group_ids(gs)[gs.len() - 1] == x);
            } else {
                assert(count_id(gs.drop_last(), x) > 0);
                let i = choose|i: int|
                    0 <= i < gs.len() - 1 && #[trigger] group_ids(gs.drop_last())[i] == x;
                assert(group_ids(gs)[i] == x);
            }
        } else {
            assert(count_id(gs.drop_last(), x) == 0);
            assert(find_id(group_ids(gs.drop_last()), x) is None);
            assert(forall|j: int|
                0 <= j < gs.len() - 1 ==> #[trigger] group_ids(gs)[j] == group_ids(
                    gs.drop_last(),
                )[j]);
            assert(group_ids(gs)[gs.len() - 1] == gs.last().id);
            assert(forall|j: int| 0 <= j < gs.len() ==> #[trigger] group_ids(gs)[j] != x);
        }
    }
}

/// Law: however often an id is defined, the aggregated table keeps exactly
/// one group with that id — the first — and one duplicate-id error is
/// reported for each later definition.
pub proof fn lemma_duplicate_id(gs: Seq<SpecRawGroup>, x: Seq<char>)
    ensures
        count_id(aggregate_groups(gs, gs.len() as int), x) == (if count_id(gs, x) > 0 {
            1nat
        } else {
            0nat
        }),
        count_dup_diags(aggregate_diags(gs, gs.len() as int), x) == (if count_id(gs, x) > 0 {
            (count_id(gs, x) - 1) as nat
        } else {
            0nat
        }),
{
    lemma_duplicate_id_rec(gs, x, gs.len() as int);
    assert(gs.take(gs.len() as int) =~= gs);
}

/// The duplicate-id law over the first `n` loaded groups.
proof fn lemma_duplicate_id_rec(gs: Seq<SpecRawGroup>, x: Seq<char>, n: int)
    requires
        0 <= n <= gs.len(),
    ensures
        count_id(aggregate_groups(gs, n), x) == (if count_id(gs.take(n), x) > 0 {
            1nat
        } else {
            0nat
        }),
        count_dup_diags(aggregate_diags(gs, n), x) == (if count_id(gs.take(n), x) > 0 {
            (count_id(gs.take(n), x) - 1) as nat
        } else {
            0nat
        }),
    decreases n,
{
    if n > 0 {
        lemma_duplicate_id_rec(gs, x, n - 1);
        crate::model::lemma_take_one_more(gs, n - 1);
        let prev = aggregate_groups(gs, n - 1);
        lemma_find_id_count(prev, x);
        lemma_find_id_count_other(gs, x, n);
        if find_id(group_ids(prev), gs[n - 1].id) is Some {
            assert(aggregate_diags(gs, n).drop_last() =~= aggregate_diags(gs, n - 1));
        } else {
            assert(aggregate_groups(gs, n).drop_last() =~= prev);
        }
    } else {
        assert(gs.take(0) =~= Seq::<SpecRawGroup>::empty());
    }
}

/// Whether the discarded or kept group carries the id in question is
/// settled by whether its own id is that id.
proof fn lemma_find_id_count_other(gs: Seq<SpecRawGroup>, x: Seq<char>, n: int)
    requires
        0 < n <= gs.len(),
    ensures
        gs[n - 1].id == x ==> (find_id(group_ids(aggregate_groups(gs, n - 1)), gs[n - 1].id)
            is Some) == (count_id(aggregate_groups(gs, n - 1), x) > 0),
{
    lemma_find_id_count(aggregate_groups(gs, n - 1), x);
}

/// Whether a group is the first definition of its id in a load sequence.
pub open spec fn is_first_definition(gs: Seq<SpecRawGroup>, g: SpecRawGroup) -> bool {
    match find_id(group_ids(gs), g.id) {
        Option::Some(i) => gs[i] == g,
        Option::None => false,
    }
}

/// No occurrence among the first `j` groups means a zero count there.
proof fn lemma_count_zero_no_match(gs: Seq<SpecRawGroup>, x: Seq<char>, j: int)
    requires
        0 <= j <= gs.len(),
    ensures
        (count_id(gs.take(j), x) == 0) == (forall|k: int| 0 <= k < j ==> gs[k].id != x),
    decreases j,
{
    if j > 0 {
        lemma_count_zero_no_match(gs, x, j - 1);
        crate::model::lemma_take_one_more(gs, j - 1);
    } else {
        assert(gs.take(0) =~= Seq::<SpecRawGroup>::empty());
    }
}

/// A group before which its id never occurs is the one the id resolves to.
proof fn lemma_first_occurrence(gs: Seq<SpecRawGroup>, x: Seq<char>, j: int)
    requires
        0 <= j < gs.len(),
        gs[j].id == x,
        forall|k: int| 0 <= k < j ==> gs[k].id != x,
    ensures
        find_id(group_ids(gs), x) == Option::Some(j),
{
    assert(forall|k: int| 0 <= k < j ==> #[trigger] group_ids(gs)[k] != x);
    crate::lookup::lemma_find_id_skip(group_ids(gs), x, j);
    assert(group_ids(gs).skip(j)[0] == group_ids(gs)[j]);
    assert(find_id(group_ids(gs).skip(j), x) == Option::Some(0int));
}

/// Law: the first definition of an id wins. Every group the aggregated
/// table keeps is the first group of the load sequence that carries its id.
pub proof fn lemma_aggregate_first_wins(gs: Seq<SpecRawGroup>)
    ensures
        forall|k: int|
            0 <= k < aggregate_groups(gs, gs.len() as int).len() ==> is_first_definition(
                gs,
                #[trigger] aggregate_groups(gs, gs.len() as int)[k],
            ),
{
    lemma_aggregate_first_wins_rec(gs, gs.len() as int);
}

/// The first-wins law over the first `n` loaded groups.
proof fn lemma_aggregate_first_wins_rec(gs: Seq<SpecRawGroup>, n: int)
    requires
        0 <= n <= gs.len(),
    ensures
        forall|k: int|
            0 <= k < aggregate_groups(gs, n).len() ==> is_first_definition(
                gs,
                #[trigger] aggregate_groups(gs, n)[k],
            ),
    decreases n,
{
    if n > 0 {
        lemma_aggregate_first_wins_rec(gs, n - 1);
        let prev = aggregate_groups(gs, n - 1);
        let x = gs[n - 1].id;
        if find_id(group_ids(prev), x) is None {
            lemma_find_id_count(prev, x);
            lemma_duplicate_id_rec(gs, x, n - 1);
            lemma_count_zero_no_match(gs, x, n - 1);
            lemma_first_occurrence(gs, x, n - 1);
            assert(is_first_definition(gs, gs[n - 1]));
            assert(forall|k: int|
                0 <= k < prev.len() ==> #[trigger] aggregate_groups(gs, n)[k] == prev[k]);
            assert(aggregate_groups(gs, n)[prev.len() as int] == gs[n - 1]);
        }
    }
}

/// A place holding the id puts the count at one or more.
proof fn lemma_one_index_count(gs: Seq<SpecRawGroup>, x: Seq<char>, i: int)
    requires
        0 <= i < gs.len(),
        gs[i].id == x,
    ensures
        count_id(gs, x) >= 1,
    decreases gs.len(),
{
    if i < gs.len() - 1 {
        assert(gs.drop_last()[i] == gs[i]);
        lemma_one_index_count(gs.drop_last(), x, i);
    }
}

/// Two places holding the same id put the count at two or more.
proof fn lemma_two_indices_count(gs: Seq<SpecRawGroup>, x: Seq<char>, i: int, j: int)
    requires
        0 <= i < j < gs.len(),
        gs[i].id == x,
        gs[j].id == x,
    ensures
        count_id(gs, x) >= 2,
    decreases gs.len(),
{
    if j == gs.len() - 1 {
        assert(gs.drop_last()[i] == gs[i]);
        lemma_one_index_count(gs.drop_last(), x, i);
    } else {
        assert(gs.drop_last()[i] == gs[i]);
        assert(gs.drop_last()[j] == gs[j]);
        lemma_two_indices_count(gs.drop_last(), x, i, j);
    }
}

/// Law: the aggregated table holds at most one group per id.
pub proof fn lemma_aggregate_unique_ids(gs: Seq<SpecRawGroup>)
    ensures
        forall|i: int, j: int|
            0 <= i < j < aggregate_groups(gs, gs.len() as int).len()
                ==> (#[trigger] aggregate_groups(gs, gs.len() as int)[i]).id != (
            #[trigger] aggregate_groups(gs, gs.len() as int)[j]).id,
{
    let agg = aggregate_groups(gs, gs.len() as int);
    assert forall|i: int, j: int| 0 <= i < j < agg.len() implies (#[trigger] agg[i]).id != (
    #[trigger] agg[j]).id by {
        if agg[i].id == agg[j].id {
            lemma_two_indices_count(agg, agg[i].id, i, j);
            lemma_duplicate_id(gs, agg[i].id);
        }
    }
}

/// Merges loaded groups into one id-indexed table. The first definition of
/// an id wins; each later one is discarded with one duplicate-id error. The
/// result is fatal exactly when a duplicate was found.
pub fn aggregate(groups: &Vec<RawGroup>) -> (r: (Vec<RawGroup>, DiagnosticResult<Diagnostic>))
    ensures
        raw_groups_view(r.0@) == aggregate_groups(raw_groups_view(groups@), groups@.len() as int),
        diags_view(r.1@.messages) == aggregate_diags(
            raw_groups_view(groups@),
            groups@.len() as int,
        ),
        r.1@.fatal == (aggregate_diags(raw_groups_view(groups@), groups@.len() as int).len() > 0),
{
    let ghost gv = raw_groups_view(groups@);
    let mut reg: Vec<RawGroup> = Vec::new();
    let mut diags: Vec<Diagnostic> = Vec::new();
    let mut i: usize = 0;
    while i < groups.len()
        invariant
            i <= groups.len(),
            gv == raw_groups_view(groups@),
            gv.len() == groups@.len(),
            raw_groups_view(reg@) == aggregate_groups(gv, i as int),
            diags_view(diags@) == aggregate_diags(gv, i as int),
        decreases groups.len() - i,
    {
        let g = &groups[i];
        proof {
            assert(g@ == gv[i as int]);
        }
        match find_group(&reg, &g.id) {
            Option::Some(_) => {
                let d = Diagnostic {
                    severity: Severity::Error,
                    code: DiagnosticCode::DuplicateGroupId,
                    doc_id: g.doc_id.clone(),
                    group_id: g.id.clone(),
                    subject: Option::None,
                    related: Vec::new(),
                };
                proof {
                    assert(d@ =~= dup_diag(gv[i as int]));
                    lemma_diags_view_push(diags@, d);
                }
                diags.push(d);
            },
            Option::None => {
                let kept = g.clone();
                proof {
                    lemma_raw_groups_view_push(reg@, kept);
                }
                reg.push(kept);
            },
        }
        i = i + 1;
    }
    let fatal = !diags.is_empty();
    (reg, DiagnosticResult { is_fatal: fatal, messages: diags })
}

} // verus!
