//! The conflict and validity checker, run after full resolution.
//!
//! Each check is independent of the others, so one failing check never
//! suppresses another: within a group the conflicting-type, metric-field and
//! reference checks all run, and every group is checked whatever was found
//! in the groups before it.

use vstd::prelude::*;

use crate::lookup::attr_ids;
use crate::lookup::find_attr;
use crate::lookup::find_id;
use crate::lookup::string_eq;
use crate::model::attrs_view;
use crate::model::diags_view;
use crate::model::lemma_diags_view_push;
use crate::model::strings_view;
use crate::model::AttributeEntry;
use crate::model::AttributeType;
use crate::model::Diagnostic;
use crate::model::DiagnosticCode;
use crate::model::GroupKind;
use crate::model::RawGroup;
use crate::model::ResolvedAttribute;
use crate::model::Severity;
use crate::model::SpecAttribute;
use crate::model::SpecAttributeEntry;
use crate::model::SpecDiagnostic;
use crate::model::SpecRawGroup;
use crate::model::Stability;
use crate::model::TypeField;

verus! {

/// Whether two entries of one group define the same attribute id with two
/// different declared types.
pub open spec fn is_conflicting(a: SpecAttributeEntry, b: SpecAttributeEntry) -> bool {
    match a {
        SpecAttributeEntry::Define(d1) => match b {
            SpecAttributeEntry::Define(d2) => d1.id == d2.id && d1.typ is Given && d2.typ is Given
                && d1.typ != d2.typ,
            SpecAttributeEntry::Reference(_) => false,
        },
        SpecAttributeEntry::Reference(_) => false,
    }
}

/// Whether an earlier entry conflicts with the entry at `j`.
pub open spec fn conflict_before(entries: Seq<SpecAttributeEntry>, j: int) -> bool {
    exists|k: int| 0 <= k < j && is_conflicting(#[trigger] entries[k], entries[j])
}

/// The id an entry speaks of.
pub open spec fn entry_id(e: SpecAttributeEntry) -> Seq<char> {
    match e {
        SpecAttributeEntry::Define(d) => d.id,
        SpecAttributeEntry::Reference(rf) => rf.id,
    }
}

/// The error of an attribute id defined twice with two types.
pub open spec fn conflict_diag(g: SpecRawGroup, id: Seq<char>) -> SpecDiagnostic {
    SpecDiagnostic {
        severity: Severity::Error,
        code: DiagnosticCode::ConflictingAttributeType,
        doc_id: g.doc_id,
        group_id: g.id,
        subject: Option::Some(id),
        related: Seq::empty(),
    }
}

/// The conflicting-type errors of the first `n` entries of a group: one per
/// entry that redefines an earlier id with another type.
pub open spec fn conflict_diags(g: SpecRawGroup, n: int) -> Seq<SpecDiagnostic>
    decreases n,
{
    if n <= 0 {
        Seq::empty()
    } else {
        let prefix = conflict_diags(g, n - 1);
        if conflict_before(g.attributes, n - 1) {
            prefix.push(conflict_diag(g, entry_id(g.attributes[n - 1])))
        } else {
            prefix
        }
    }
}

/// The error of a metric group without an instrument kind.
pub open spec fn metric_instrument_diag(g: SpecRawGroup) -> SpecDiagnostic {
    SpecDiagnostic {
        severity: Severity::Error,
        code: DiagnosticCode::MetricMissingInstrument,
        doc_id: g.doc_id,
        group_id: g.id,
        subject: Option::None,
        related: Seq::empty(),
    }
}

/// The error of a metric group without a unit.
pub open spec fn metric_unit_diag(g: SpecRawGroup) -> SpecDiagnostic {
    SpecDiagnostic {
        severity: Severity::Error,
        code: DiagnosticCode::MetricMissingUnit,
        doc_id: g.doc_id,
        group_id: g.id,
        subject: Option::None,
        related: Seq::empty(),
    }
}

/// The metric-field errors of a group: a metric must declare an instrument
/// kind and a unit; other kinds need neither.
pub open spec fn metric_diags(g: SpecRawGroup) -> Seq<SpecDiagnostic> {
    if g.kind == GroupKind::Metric {
        (if g.instrument is None {
            seq![metric_instrument_diag(g)]
        } else {
            Seq::empty()
        }) + (if g.unit is None {
            seq![metric_unit_diag(g)]
        } else {
            Seq::empty()
        })
    } else {
        Seq::empty()
    }
}

/// The error of a reference no definition supplies.
pub open spec fn unknown_ref_diag(g: SpecRawGroup, id: Seq<char>) -> SpecDiagnostic {
    SpecDiagnostic {
        severity: Severity::Error,
        code: DiagnosticCode::UnknownAttributeReference,
        doc_id: g.doc_id,
        group_id: g.id,
        subject: Option::Some(id),
        related: Seq::empty(),
    }
}

/// The warning of a deprecated attribute referenced without acknowledgement
/// by a group that is not itself deprecated.
pub open spec fn deprecated_ref_diag(g: SpecRawGroup, id: Seq<char>) -> SpecDiagnostic {
    SpecDiagnostic {
        severity: Severity::Warning,
        code: DiagnosticCode::DeprecatedReference,
        doc_id: g.doc_id,
        group_id: g.id,
        subject: Option::Some(id),
        related: Seq::empty(),
    }
}

/// What one reference entry yields against the group's merged attributes:
/// an unknown-reference error when no attribute carries its id, a
/// deprecation warning when the attribute it resolved to is deprecated and
/// neither the group nor the reference acknowledges that, and nothing
/// otherwise.
pub open spec fn ref_diag_of(
    g: SpecRawGroup,
    rf: crate::model::SpecAttributeRef,
    attrs: Seq<SpecAttribute>,
) -> Seq<SpecDiagnostic> {
    match find_id(attr_ids(attrs), rf.id) {
        Option::None => seq![unknown_ref_diag(g, rf.id)],
        Option::Some(i) => if attrs[i].stability == Stability::Deprecated && !g.deprecated
            && !rf.acknowledges_deprecation {
            seq![deprecated_ref_diag(g, rf.id)]
        } else {
            Seq::empty()
        },
    }
}

/// The reference diagnostics of the first `n` entries of a group.
pub open spec fn ref_diags(g: SpecRawGroup, attrs: Seq<SpecAttribute>, n: int) -> Seq<
    SpecDiagnostic,
>
    decreases n,
{
    if n <= 0 {
        Seq::empty()
    } else {
        ref_diags(g, attrs, n - 1) + (match g.attributes[n - 1] {
            SpecAttributeEntry::Reference(rf) => ref_diag_of(g, rf, attrs),
            SpecAttributeEntry::Define(_) => Seq::empty(),
        })
    }
}

/// Every diagnostic the checker yields for one group, given the group's
/// merged attributes: the conflicting-type errors, then the metric-field
/// errors, then the reference diagnostics.
pub open spec fn check_group_spec(g: SpecRawGroup, attrs: Seq<SpecAttribute>) -> Seq<
    SpecDiagnostic,
> {
    conflict_diags(g, g.attributes.len() as int) + metric_diags(g) + ref_diags(
        g,
        attrs,
        g.attributes.len() as int,
    )
}

/// Every diagnostic the checker yields over the first `n` groups of the
/// registry, each group checked against its own merged attributes.
pub open spec fn check_all_spec(
    reg: Seq<SpecRawGroup>,
    pool: Seq<SpecAttribute>,
    n: int,
) -> Seq<SpecDiagnostic>
    decreases n,
{
    if n <= 0 {
        Seq::empty()
    } else {
        check_all_spec(reg, pool, n - 1) + check_group_spec(
            reg[n - 1],
            crate::resolver::merged_attrs(reg, pool, reg[n - 1].id, reg.len()),
        )
    }
}

/// Whether two string lists hold the same strings.
fn strings_equal(a: &Vec<String>, b: &Vec<String>) -> (r: bool)
    ensures
        r == (strings_view(a@) == strings_view(b@)),
{
    if a.len() != b.len() {
        proof {
            assert(strings_view(a@).len() != strings_view(b@).len());
        }
        return false;
    }
    let mut i: usize = 0;
    while i < a.len()
        invariant
            i <= a.len(),
            a@.len() == b@.len(),
            forall|k: int| 0 <= k < i ==> strings_view(a@)[k] == strings_view(b@)[k],
        decreases a.len() - i,
    {
        if !string_eq(&a[i], &b[i]) {
            proof {
                assert(strings_view(a@)[i as int] != strings_view(b@)[i as int]);
            }
            return false;
        }
        proof {
            assert(strings_view(a@)[i as int] == strings_view(b@)[i as int]);
        }
        i = i + 1;
    }
    proof {
        assert(strings_view(a@) =~= strings_view(b@));
    }
    true
}

/// Whether two attribute types are the same type.
fn attr_type_eq(a: &AttributeType, b: &AttributeType) -> (r: bool)
    ensures
        r == (a@ == b@),
{
    match a {
        AttributeType::Primitive => match b {
            AttributeType::Primitive => true,
            _ => false,
        },
        AttributeType::Array => match b {
            AttributeType::Array => true,
            _ => false,
        },
        AttributeType::Enumeration { members: m1, fallback: f1 } => match b {
            AttributeType::Enumeration { members: m2, fallback: f2 } => {
                if *f1 != *f2 {
                    return false;
                }
                strings_equal(m1, m2)
            },
            _ => false,
        },
    }
}

/// Whether two entries define the same id with two different types.
fn entries_conflict(a: &AttributeEntry, b: &AttributeEntry) -> (r: bool)
    ensures
        r == is_conflicting(a@, b@),
{
    match a {
        AttributeEntry::Define(d1) => match b {
            AttributeEntry::Define(d2) => {
                if !string_eq(&d1.id, &d2.id) {
                    return false;
                }
                match &d1.typ {
                    TypeField::Given(t1) => match &d2.typ {
                        TypeField::Given(t2) => !attr_type_eq(t1, t2),
                        _ => false,
                    },
                    _ => false,
                }
            },
            AttributeEntry::Reference(_) => false,
        },
        AttributeEntry::Reference(_) => false,
    }
}

/// Runs every check on one group against its merged attributes and returns
/// the diagnostics found, conflicting-type errors first, then metric-field
/// errors, then reference diagnostics.
pub fn check_group(g: &RawGroup, attrs: &Vec<ResolvedAttribute>) -> (r: Vec<Diagnostic>)
    ensures
        diags_view(r@) == check_group_spec(g@, attrs_view(attrs@)),
{
    let ghost gv = g@;
    let ghost av = attrs_view(attrs@);
    let n = g.attributes.len();
    proof {
        assert(gv.attributes.len() == n as int);
    }
    let mut out: Vec<Diagnostic> = Vec::new();
    let mut j: usize = 0;
    while j < n
        invariant
            j <= n,
            gv == g@,
            gv.attributes.len() == n as int,
            n == g@.attributes.len(),
            n == g.attributes@.len(),
            diags_view(out@) == conflict_diags(gv, j as int),
        decreases n - j,
    {
        proof {
            assert(gv.attributes[j as int] == g.attributes@[j as int]@);
        }
        let mut found = false;
        let mut k: usize = 0;
        while k < j
            invariant
                k <= j,
                j < n,
                gv == g@,
                gv.attributes.len() == n as int,
                n == g.attributes@.len(),
                gv.attributes[j as int] == g.attributes@[j as int]@,
                found == exists|k2: int|
                    0 <= k2 < k && is_conflicting(
                        #[trigger] gv.attributes[k2],
                        gv.attributes[j as int],
                    ),
            decreases j - k,
        {
            proof {
                assert(gv.attributes[k as int] == g.attributes@[k as int]@);
            }
            if entries_conflict(&g.attributes[k], &g.attributes[j]) {
                found = true;
            }
            k = k + 1;
        }
        if found {
            let id = match &g.attributes[j] {
                AttributeEntry::Define(d) => d.id.clone(),
                AttributeEntry::Reference(rf) => rf.id.clone(),
            };
            let d = Diagnostic {
                severity: Severity::Error,
                code: DiagnosticCode::ConflictingAttributeType,
                doc_id: g.doc_id.clone(),
                group_id: g.id.clone(),
                subject: Option::Some(id),
                related: Vec::new(),
            };
            proof {
                assert(d@ =~= conflict_diag(gv, entry_id(gv.attributes[j as int])));
                lemma_diags_view_push(out@, d);
            }
            out.push(d);
        }
        j = j + 1;
    }
    let ghost conflicts = diags_view(out@);
    let is_metric = match g.kind {
        GroupKind::Metric => true,
        _ => false,
    };
    if is_metric {
        if g.instrument.is_none() {
            let d = Diagnostic {
                severity: Severity::Error,
                code: DiagnosticCode::MetricMissingInstrument,
                doc_id: g.doc_id.clone(),
                group_id: g.id.clone(),
                subject: Option::None,
                related: Vec::new(),
            };
            proof {
                assert(d@ =~= metric_instrument_diag(gv));
                lemma_diags_view_push(out@, d);
            }
            out.push(d);
        }
        if g.unit.is_none() {
            let d = Diagnostic {
                severity: Severity::Error,
                code: DiagnosticCode::MetricMissingUnit,
                doc_id: g.doc_id.clone(),
                group_id: g.id.clone(),
                subject: Option::None,
                related: Vec::new(),
            };
            proof {
                assert(d@ =~= metric_unit_diag(gv));
                lemma_diags_view_push(out@, d);
            }
            out.push(d);
        }
    }
    proof {
        assert(diags_view(out@) =~= conflicts + metric_diags(gv));
    }
    let ghost upto_metric = diags_view(out@);
    let mut j2: usize = 0;
    while j2 < n
        invariant
            j2 <= n,
            gv == g@,
            av == attrs_view(attrs@),
            gv.attributes.len() == n as int,
            n == g.attributes@.len(),
            diags_view(out@) == upto_metric + ref_diags(gv, av, j2 as int),
        decreases n - j2,
    {
        proof {
            assert(gv.attributes[j2 as int] == g.attributes@[j2 as int]@);
        }
        match &g.attributes[j2] {
            AttributeEntry::Define(_) => {
                proof {
                    assert(upto_metric + ref_diags(gv, av, j2 as int + 1) =~= diags_view(out@));
                }
            },
            AttributeEntry::Reference(rf) => {
                match find_attr(attrs, &rf.id) {
                    Option::None => {
                        let d = Diagnostic {
                            severity: Severity::Error,
                            code: DiagnosticCode::UnknownAttributeReference,
                            doc_id: g.doc_id.clone(),
                            group_id: g.id.clone(),
                            subject: Option::Some(rf.id.clone()),
                            related: Vec::new(),
                        };
                        proof {
                            assert(d@ =~= unknown_ref_diag(gv, rf@.id));
                            lemma_diags_view_push(out@, d);
                            assert(upto_metric + ref_diags(gv, av, j2 as int + 1) =~= diags_view(
                                out@,
                            ).push(d@));
                        }
                        out.push(d);
                    },
                    Option::Some(i) => {
                        let is_deprecated = match attrs[i].stability {
                            Stability::Deprecated => true,
                            _ => false,
                        };
                        proof {
                            assert(av[i as int] == attrs@[i as int]@);
                        }
                        if is_deprecated && !g.deprecated && !rf.acknowledges_deprecation {
                            let d = Diagnostic {
                                severity: Severity::Warning,
                                code: DiagnosticCode::DeprecatedReference,
                                doc_id: g.doc_id.clone(),
                                group_id: g.id.clone(),
                                subject: Option::Some(rf.id.clone()),
                                related: Vec::new(),
                            };
                            proof {
                                assert(d@ =~= deprecated_ref_diag(gv, rf@.id));
                                lemma_diags_view_push(out@, d);
                                assert(upto_metric + ref_diags(gv, av, j2 as int + 1)
                                    =~= diags_view(out@).push(d@));
                            }
                            out.push(d);
                        } else {
                            proof {
                                assert(upto_metric + ref_diags(gv, av, j2 as int + 1)
                                    =~= diags_view(out@));
                            }
                        }
                    },
                }
            },
        }
        j2 = j2 + 1;
    }
    proof {
        assert(diags_view(out@) =~= check_group_spec(gv, av));
    }
    out
}

} // verus!
