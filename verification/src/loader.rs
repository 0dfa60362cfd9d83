//! The document loader: validation of one parsed schema document.
//!
//! A document is handed in as already-structured records. A malformed record
//! (missing id, missing or unknown kind, an attribute definition whose type
//! could not be understood) yields one error diagnostic and is dropped; the
//! rest of the document continues to load.

use vstd::prelude::*;

use crate::diag::DiagnosticResult;
use crate::model::clone_entries;
use crate::model::clone_opt_string;
use crate::model::lemma_diags_view_push;
use crate::model::lemma_raw_groups_view_push;
use crate::model::diags_view;
use crate::model::raw_groups_view;
use crate::model::AttributeEntry;
use crate::model::Diagnostic;
use crate::model::DiagnosticCode;
use crate::model::DocumentRecord;
use crate::model::GroupKind;
use crate::model::GroupRecord;
use crate::model::RawGroup;
use crate::model::Severity;
use crate::model::SpecAttributeEntry;
use crate::model::SpecDiagnostic;
use crate::model::SpecGroupRecord;
use crate::model::SpecRawGroup;
use crate::model::TypeField;

verus! {

/// Whether one attribute entry of a record is well-formed: an inline
/// definition must not carry a malformed type.
pub open spec fn entry_wf(e: SpecAttributeEntry) -> bool {
    match e {
        SpecAttributeEntry::Define(d) => !(d.typ is Malformed),
        SpecAttributeEntry::Reference(_) => true,
    }
}

/// The first fault of a group record, if any: a missing id, a missing or
/// unknown kind, or a malformed attribute type.
pub open spec fn record_fault(g: SpecGroupRecord) -> Option<DiagnosticCode> {
    if g.id.len() == 0 {
        Option::Some(DiagnosticCode::MissingGroupId)
    } else if g.kind is None {
        Option::Some(DiagnosticCode::UnknownGroupKind)
    } else if exists|k: int| 0 <= k < g.attributes.len() && !entry_wf(#[trigger] g.attributes[k]) {
        Option::Some(DiagnosticCode::MalformedAttributeType)
    } else {
        Option::None
    }
}

/// Whether a group record loads.
pub open spec fn record_wf(g: SpecGroupRecord) -> bool {
    record_fault(g) is None
}

/// The validated group a well-formed record loads to.
pub open spec fn raw_of(doc_id: Seq<char>, g: SpecGroupRecord) -> SpecRawGroup {
    SpecRawGroup {
        id: g.id,
        doc_id: doc_id,
        kind: match g.kind {
            Option::Some(k) => k,
            Option::None => GroupKind::AttributeGroup,
        },
        extends: g.extends,
        deprecated: g.deprecated,
        attributes: g.attributes,
        instrument: g.instrument,
        unit: g.unit,
        metric_name: g.metric_name,
    }
}

/// The error diagnostic a malformed record yields.
pub open spec fn fault_diag(
    doc_id: Seq<char>,
    g: SpecGroupRecord,
    code: DiagnosticCode,
) -> SpecDiagnostic {
    SpecDiagnostic {
        severity: Severity::Error,
        code: code,
        doc_id: doc_id,
        group_id: g.id,
        subject: Option::None,
        related: Seq::empty(),
    }
}

/// The validated groups of the first `n` records of a document, in document
/// order, malformed records dropped.
pub open spec fn load_groups_rec(doc_id: Seq<char>, gs: Seq<SpecGroupRecord>, n: int) -> Seq<
    SpecRawGroup,
>
    decreases n,
{
    if n <= 0 {
        Seq::empty()
    } else {
        let prefix = load_groups_rec(doc_id, gs, n - 1);
        if record_wf(gs[n - 1]) {
            prefix.push(raw_of(doc_id, gs[n - 1]))
        } else {
            prefix
        }
    }
}

/// The diagnostics of the first `n` records of a document: one error per
/// malformed record, in document order.
pub open spec fn load_diags_rec(doc_id: Seq<char>, gs: Seq<SpecGroupRecord>, n: int) -> Seq<
    SpecDiagnostic,
>
    decreases n,
{
    if n <= 0 {
        Seq::empty()
    } else {
        let prefix = load_diags_rec(doc_id, gs, n - 1);
        match record_fault(gs[n - 1]) {
            Option::Some(code) => prefix.push(fault_diag(doc_id, gs[n - 1], code)),
            Option::None => prefix,
        }
    }
}

/// What loading a whole document yields.
pub open spec fn load_groups_spec(doc: crate::model::SpecDocument) -> Seq<SpecRawGroup> {
    load_groups_rec(doc.doc_id, doc.groups, doc.groups.len() as int)
}

/// The diagnostics loading a whole document yields.
pub open spec fn load_diags_spec(doc: crate::model::SpecDocument) -> Seq<SpecDiagnostic> {
    load_diags_rec(doc.doc_id, doc.groups, doc.groups.len() as int)
}

/// The first fault of one group record, if any.
fn record_fault_exec(g: &GroupRecord) -> (r: Option<DiagnosticCode>)
    ensures
        r == record_fault(g@),
{
    if g.id.as_str().is_empty() {
        return Option::Some(DiagnosticCode::MissingGroupId);
    }
    if g.kind.is_none() {
        return Option::Some(DiagnosticCode::UnknownGroupKind);
    }
    let mut k: usize = 0;
    while k < g.attributes.len()
        invariant
            k <= g.attributes.len(),
            g@.id.len() != 0,
            g@.kind is Some,
            forall|j: int| 0 <= j < k ==> entry_wf(#[trigger] g@.attributes[j]),
        decreases g.attributes.len() - k,
    {
        let malformed = match &g.attributes[k] {
            AttributeEntry::Define(d) => match &d.typ {
                TypeField::Malformed => true,
                _ => false,
            },
            AttributeEntry::Reference(_) => false,
        };
        if malformed {
            proof {
                assert(g@.attributes[k as int] == g.attributes@[k as int]@);
                assert(g@.attributes.len() == g.attributes@.len());
                assert(exists|j: int|
                    0 <= j < g@.attributes.len() && !entry_wf(#[trigger] g@.attributes[j])) by {
                    assert((k as int) < g@.attributes.len());
                    assert(!entry_wf(g@.attributes[k as int]));
                }
                assert(record_fault(g@) == Option::Some(DiagnosticCode::MalformedAttributeType));
            }
            return Option::Some(DiagnosticCode::MalformedAttributeType);
        }
        proof {
            assert(g@.attributes[k as int] == g.attributes@[k as int]@);
            assert(entry_wf(g@.attributes[k as int]));
        }
        k = k + 1;
    }
    Option::None
}

/// Loads one already-parsed document into validated groups. A malformed
/// record yields one error diagnostic and is dropped; every well-formed
/// record is kept, in document order. The result is fatal exactly when a
/// record was dropped.
pub fn load_document(doc: &DocumentRecord) -> (r: (Vec<RawGroup>, DiagnosticResult<Diagnostic>))
    ensures
        raw_groups_view(r.0@) == load_groups_spec(doc@),
        diags_view(r.1@.messages) == load_diags_spec(doc@),
        r.1@.fatal == (load_diags_spec(doc@).len() > 0),
{
    let mut raws: Vec<RawGroup> = Vec::new();
    let mut diags: Vec<Diagnostic> = Vec::new();
    let mut i: usize = 0;
    while i < doc.groups.len()
        invariant
            i <= doc.groups.len(),
            raw_groups_view(raws@) == load_groups_rec(doc@.doc_id, doc@.groups, i as int),
            diags_view(diags@) == load_diags_rec(doc@.doc_id, doc@.groups, i as int),
        decreases doc.groups.len() - i,
    {
        let g = &doc.groups[i];
        assert(g@ == doc@.groups[i as int]);
        match record_fault_exec(g) {
            Option::Some(code) => {
                let d = Diagnostic {
                    severity: Severity::Error,
                    code: code,
                    doc_id: doc.doc_id.clone(),
                    group_id: g.id.clone(),
                    subject: Option::None,
                    related: Vec::new(),
                };
                proof {
                    assert(d@ =~= fault_diag(doc@.doc_id, doc@.groups[i as int], code));
                    lemma_diags_view_push(diags@, d);
                }
                diags.push(d);
            },
            Option::None => {
                let rg = RawGroup {
                    id: g.id.clone(),
                    doc_id: doc.doc_id.clone(),
                    kind: g.kind.unwrap(),
                    extends: clone_opt_string(&g.extends),
                    deprecated: g.deprecated,
                    attributes: clone_entries(&g.attributes),
                    instrument: g.instrument,
                    unit: clone_opt_string(&g.unit),
                    metric_name: clone_opt_string(&g.metric_name),
                };
                proof {
                    assert(rg@ =~= raw_of(doc@.doc_id, doc@.groups[i as int]));
                    lemma_raw_groups_view_push(raws@, rg);
                }
                raws.push(rg);
            },
        }
        i = i + 1;
    }
    let fatal = !diags.is_empty();
    proof {
        assert(load_diags_spec(doc@) == load_diags_rec(doc@.doc_id, doc@.groups, i as int));
    }
    (raws, DiagnosticResult { is_fatal: fatal, messages: diags })
}

} // verus!
