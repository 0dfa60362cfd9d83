//! The whole resolution run: documents in, resolved registry and
//! diagnostics out.
//!
//! [`resolve_documents`] loads every document, aggregates the loaded groups
//! into one table, resolves every group's inheritance, and runs the
//! validity checks, accumulating every diagnostic along the way. The
//! registry is returned alongside the diagnostics whatever the fatal state,
//! so a partial result stays available for inspection; a caller must not
//! emit artifacts from a fatal run. The result is a function of the input
//! documents alone: resolving the same documents twice yields an identical
//! registry and an identical diagnostic sequence.

use vstd::prelude::*;

use crate::checker::check_all_spec;
use crate::checker::check_group;
use crate::diag::DiagnosticResult;
use crate::loader::load_diags_spec;
use crate::loader::load_document;
use crate::loader::load_groups_spec;
use crate::lookup::find_id;
use crate::lookup::find_resolved;
use crate::lookup::resolved_ids;
use crate::lookup::resolved_view;
use crate::model::attrs_view;
use crate::model::diags_view;
use crate::model::lemma_diags_view_concat;
use crate::model::lemma_raw_groups_view_concat;
use crate::model::raw_groups_view;
use crate::model::Diagnostic;
use crate::model::DocumentRecord;
use crate::model::RawGroup;
use crate::model::ResolvedGroup;
use crate::model::Severity;
use crate::model::SpecDiagnostic;
use crate::model::SpecDocument;
use crate::model::SpecRawGroup;
use crate::model::SpecResolvedGroup;
use crate::registry::aggregate;
use crate::registry::aggregate_diags;
use crate::registry::aggregate_groups;
use crate::resolver::build_pool;
use crate::resolver::resolve_diags_spec;
use crate::resolver::resolve_group;
use crate::resolver::resolve_group_spec;
use crate::resolver::spec_pool;

verus! {

/// Model of a document list.
pub open spec fn docs_view(docs: Seq<DocumentRecord>) -> Seq<SpecDocument> {
    docs.map_values(|d: DocumentRecord| d@)
}

/// The groups the first `n` documents load, in document order.
pub open spec fn load_all_groups(docs: Seq<SpecDocument>, n: int) -> Seq<SpecRawGroup>
    decreases n,
{
    if n <= 0 {
        Seq::empty()
    } else {
        load_all_groups(docs, n - 1) + load_groups_spec(docs[n - 1])
    }
}

/// The loader diagnostics of the first `n` documents, in document order.
pub open spec fn load_all_diags(docs: Seq<SpecDocument>, n: int) -> Seq<SpecDiagnostic>
    decreases n,
{
    if n <= 0 {
        Seq::empty()
    } else {
        load_all_diags(docs, n - 1) + load_diags_spec(docs[n - 1])
    }
}

/// The resolved groups of the first `n` registry groups, in registry order.
pub open spec fn resolve_all_groups(
    reg: Seq<SpecRawGroup>,
    pool: Seq<crate::model::SpecAttribute>,
    n: int,
) -> Seq<SpecResolvedGroup>
    decreases n,
{
    if n <= 0 {
        Seq::empty()
    } else {
        resolve_all_groups(reg, pool, n - 1).push(resolve_group_spec(reg, pool, reg[n - 1]))
    }
}

/// The resolver diagnostics of the first `n` registry groups.
pub open spec fn resolve_all_diags(reg: Seq<SpecRawGroup>, n: int) -> Seq<SpecDiagnostic>
    decreases n,
{
    if n <= 0 {
        Seq::empty()
    } else {
        resolve_all_diags(reg, n - 1) + resolve_diags_spec(reg, reg[n - 1])
    }
}

/// The aggregated group table of a document list.
pub open spec fn pipeline_raw(docs: Seq<SpecDocument>) -> Seq<SpecRawGroup> {
    let raws = load_all_groups(docs, docs.len() as int);
    aggregate_groups(raws, raws.len() as int)
}

/// The resolved registry of a document list.
pub open spec fn pipeline_registry(docs: Seq<SpecDocument>) -> Seq<SpecResolvedGroup> {
    let reg = pipeline_raw(docs);
    let pool = spec_pool(reg, reg.len() as int);
    resolve_all_groups(reg, pool, reg.len() as int)
}

/// Every diagnostic of a resolution run, in pipeline order: the loaders',
/// the aggregator's, the resolver's, the checker's.
pub open spec fn pipeline_diags(docs: Seq<SpecDocument>) -> Seq<SpecDiagnostic> {
    let raws = load_all_groups(docs, docs.len() as int);
    let reg = aggregate_groups(raws, raws.len() as int);
    let pool = spec_pool(reg, reg.len() as int);
    load_all_diags(docs, docs.len() as int) + aggregate_diags(raws, raws.len() as int)
        + resolve_all_diags(reg, reg.len() as int) + check_all_spec(reg, pool, reg.len() as int)
}

/// Whether a diagnostic list holds an error.
pub open spec fn has_error(ds: Seq<SpecDiagnostic>) -> bool {
    exists|i: int| 0 <= i < ds.len() && ds[i].severity == Severity::Error
}

/// Law: resolution is deterministic. Any two runs over the same documents
/// yield the same resolved registry, the same diagnostic sequence in the
/// same order, and the same fatal state.
pub proof fn lemma_resolution_deterministic(
    docs: Seq<SpecDocument>,
    reg1: Seq<SpecResolvedGroup>,
    diags1: Seq<SpecDiagnostic>,
    reg2: Seq<SpecResolvedGroup>,
    diags2: Seq<SpecDiagnostic>,
)
    requires
        reg1 == pipeline_registry(docs),
        diags1 == pipeline_diags(docs),
        reg2 == pipeline_registry(docs),
        diags2 == pipeline_diags(docs),
    ensures
        reg1 == reg2,
        diags1 == diags2,
        has_error(diags1) == has_error(diags2),
{
}

/// Law: the resolver creates exactly one resolved group per group of the
/// aggregated table, in table order and under the same id.
pub proof fn lemma_one_resolved_group_each(
    reg: Seq<SpecRawGroup>,
    pool: Seq<crate::model::SpecAttribute>,
)
    ensures
        resolve_all_groups(reg, pool, reg.len() as int).len() == reg.len(),
        forall|k: int|
            0 <= k < reg.len() ==> #[trigger] resolve_all_groups(reg, pool, reg.len() as int)[k].id
                == reg[k].id,
{
    lemma_resolve_all_groups_len(reg, pool, reg.len() as int);
    assert forall|k: int| 0 <= k < reg.len() implies #[trigger] resolve_all_groups(
        reg,
        pool,
        reg.len() as int,
    )[k].id == reg[k].id by {
        lemma_resolve_all_groups_index(reg, pool, reg.len() as int, k);
    }
}

/// The immutable output of a resolution run: every group of the registry,
/// fully merged, indexed by its id.
#[derive(Debug, PartialEq)]
pub struct ResolvedRegistry {
    pub groups: Vec<ResolvedGroup>,
}

impl View for ResolvedRegistry {
    type V = Seq<SpecResolvedGroup>;

    open spec fn view(&self) -> Seq<SpecResolvedGroup> {
        resolved_view(self.groups@)
    }
}

impl ResolvedRegistry {
    /// The registry invariant: each group id is held by exactly one group.
    pub open spec fn wf(self) -> bool {
        forall|i: int, j: int| 0 <= i < j < self@.len() ==> self@[i].id != self@[j].id
    }

    /// How many groups the registry holds.
    pub fn len(&self) -> (r: usize)
        ensures
            r == self@.len(),
    {
        self.groups.len()
    }

    /// The place of the group with the given id, if any.
    pub fn lookup(&self, id: &String) -> (r: Option<usize>)
        ensures
            (match r {
                Option::Some(i) => (i as int) < self@.len() && find_id(resolved_ids(self@), id@)
                    == Option::Some(i as int),
                Option::None => find_id(resolved_ids(self@), id@) is None,
            }),
    {
        find_resolved(&self.groups, id)
    }

    /// The group at a place of the registry.
    pub fn get(&self, i: usize) -> (r: &ResolvedGroup)
        requires
            i < self@.len(),
        ensures
            r@ == self@[i as int],
    {
        &self.groups[i]
    }
}

/// Whether a diagnostic list holds an error.
fn any_error(ds: &Vec<Diagnostic>) -> (r: bool)
    ensures
        r == has_error(diags_view(ds@)),
{
    let mut i: usize = 0;
    let mut found = false;
    while i < ds.len()
        invariant
            i <= ds.len(),
            found == exists|k: int|
                0 <= k < i && #[trigger] diags_view(ds@)[k].severity == Severity::Error,
        decreases ds.len() - i,
    {
        let is_error = match ds[i].severity {
            Severity::Error => true,
            Severity::Warning => false,
        };
        proof {
            assert(diags_view(ds@)[i as int] == ds@[i as int]@);
        }
        if is_error {
            found = true;
        }
        i = i + 1;
    }
    found
}

/// Resolves a set of schema documents into one registry: loads every
/// document, merges the loaded groups into one id-indexed table (first
/// definition of an id wins), resolves every group's `extends` chain, and
/// checks the result, accumulating every diagnostic found along the way.
/// The registry is returned whatever the fatal state; the result is fatal
/// exactly when an error-severity diagnostic was recorded.
pub fn resolve_documents(docs: &Vec<DocumentRecord>) -> (r: (
    ResolvedRegistry,
    DiagnosticResult<Diagnostic>,
))
    ensures
        r.0@ == pipeline_registry(docs_view(docs@)),
        r.0.wf(),
        diags_view(r.1@.messages) == pipeline_diags(docs_view(docs@)),
        r.1@.fatal == has_error(pipeline_diags(docs_view(docs@))),
{
    let ghost dv = docs_view(docs@);
    let mut all_groups: Vec<RawGroup> = Vec::new();
    let mut msgs: Vec<Diagnostic> = Vec::new();
    let mut i: usize = 0;
    while i < docs.len()
        invariant
            i <= docs.len(),
            dv == docs_view(docs@),
            dv.len() == docs@.len(),
            raw_groups_view(all_groups@) == load_all_groups(dv, i as int),
            diags_view(msgs@) == load_all_diags(dv, i as int),
        decreases docs.len() - i,
    {
        proof {
            assert(dv[i as int] == docs@[i as int]@);
        }
        let (mut gs, dr) = load_document(&docs[i]);
        proof {
            lemma_raw_groups_view_concat(all_groups@, gs@);
        }
        all_groups.append(&mut gs);
        let mut ds = dr.messages();
        proof {
            lemma_diags_view_concat(msgs@, ds@);
        }
        msgs.append(&mut ds);
        i = i + 1;
    }
    let ghost raws = raw_groups_view(all_groups@);
    let (reg, dr2) = aggregate(&all_groups);
    let ghost regv = raw_groups_view(reg@);
    let mut ds2 = dr2.messages();
    proof {
        lemma_diags_view_concat(msgs@, ds2@);
    }
    msgs.append(&mut ds2);
    let ghost after_aggregate = diags_view(msgs@);
    let pool = build_pool(&reg);
    let ghost poolv = attrs_view(pool@);
    let mut resolved: Vec<ResolvedGroup> = Vec::new();
    let mut j: usize = 0;
    while j < reg.len()
        invariant
            j <= reg.len(),
            regv == raw_groups_view(reg@),
            regv.len() == reg@.len(),
            poolv == attrs_view(pool@),
            after_aggregate == diags_view(msgs@).take(after_aggregate.len() as int),
            resolved_view(resolved@) == resolve_all_groups(regv, poolv, j as int),
            diags_view(msgs@) == after_aggregate + resolve_all_diags(regv, j as int),
        decreases reg.len() - j,
    {
        proof {
            assert(regv[j as int] == reg@[j as int]@);
        }
        let (rg, mut ds) = resolve_group(&reg, &pool, &reg[j]);
        proof {
            assert(resolved_view(resolved@.push(rg)) =~= resolved_view(resolved@).push(rg@));
            lemma_diags_view_concat(msgs@, ds@);
            assert((after_aggregate + resolve_all_diags(regv, j as int)) + diags_view(ds@)
                =~= after_aggregate + resolve_all_diags(regv, j as int + 1));
        }
        resolved.push(rg);
        msgs.append(&mut ds);
        j = j + 1;
        proof {
            assert(after_aggregate == diags_view(msgs@).take(after_aggregate.len() as int)) by {
                assert(diags_view(msgs@).take(after_aggregate.len() as int)
                    =~= after_aggregate);
            }
        }
    }
    let ghost after_resolve = diags_view(msgs@);
    proof {
        lemma_resolve_all_groups_len(regv, poolv, regv.len() as int);
    }
    let mut k: usize = 0;
    while k < reg.len()
        invariant
            k <= reg.len(),
            reg@.len() == resolved@.len(),
            regv == raw_groups_view(reg@),
            regv.len() == reg@.len(),
            poolv == attrs_view(pool@),
            resolved_view(resolved@) == resolve_all_groups(regv, poolv, regv.len() as int),
            diags_view(msgs@) == after_resolve + check_all_spec(regv, poolv, k as int),
        decreases reg.len() - k,
    {
        proof {
            assert(regv[k as int] == reg@[k as int]@);
            assert(resolved_view(resolved@)[k as int] == resolved@[k as int]@);
            lemma_resolve_all_groups_index(regv, poolv, regv.len() as int, k as int);
            assert(resolved@[k as int]@.attributes == attrs_view(
                resolved@[k as int].attributes@,
            ));
        }
        let ds = check_group(&reg[k], &resolved[k].attributes);
        let mut ds = ds;
        proof {
            lemma_diags_view_concat(msgs@, ds@);
        }
        msgs.append(&mut ds);
        k = k + 1;
    }
    let fatal = any_error(&msgs);
    proof {
        assert(load_all_groups(dv, docs@.len() as int) == raws);
        assert(diags_view(msgs@) =~= pipeline_diags(dv));
        assert(resolved_view(resolved@) == pipeline_registry(dv));
        crate::registry::lemma_aggregate_unique_ids(raws);
        lemma_one_resolved_group_each(regv, poolv);
    }
    (ResolvedRegistry { groups: resolved }, DiagnosticResult { is_fatal: fatal, messages: msgs })
}

/// The resolved group at a place of the table is its raw group resolved.
proof fn lemma_resolve_all_groups_index(
    reg: Seq<SpecRawGroup>,
    pool: Seq<crate::model::SpecAttribute>,
    n: int,
    k: int,
)
    requires
        0 <= k < n,
    ensures
        resolve_all_groups(reg, pool, n).len() == n,
        resolve_all_groups(reg, pool, n)[k] == resolve_group_spec(reg, pool, reg[k]),
    decreases n,
{
    if k < n - 1 {
        lemma_resolve_all_groups_index(reg, pool, n - 1, k);
    } else {
        lemma_resolve_all_groups_len(reg, pool, n - 1);
    }
}

/// How many groups the resolved table holds.
proof fn lemma_resolve_all_groups_len(
    reg: Seq<SpecRawGroup>,
    pool: Seq<crate::model::SpecAttribute>,
    n: int,
)
    requires
        0 <= n,
    ensures
        resolve_all_groups(reg, pool, n).len() == n,
    decreases n,
{
    if n > 0 {
        lemma_resolve_all_groups_len(reg, pool, n - 1);
    }
}

} // verus!
