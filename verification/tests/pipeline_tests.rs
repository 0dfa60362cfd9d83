use semconv_registry::model::{
    AttributeDef, AttributeEntry, AttributeRef, AttributeType, DiagnosticCode, DocumentRecord,
    GroupKind, GroupRecord, InstrumentKind, RequirementLevel, Severity, Stability, TypeField,
};
use semconv_registry::pipeline::resolve_documents;

fn doc(id: &str, groups: Vec<GroupRecord>) -> DocumentRecord {
    DocumentRecord {
        doc_id: id.to_string(),
        groups,
    }
}

fn group(id: &str, kind: Option<GroupKind>) -> GroupRecord {
    GroupRecord {
        id: id.to_string(),
        kind,
        extends: None,
        deprecated: false,
        attributes: Vec::new(),
        instrument: None,
        unit: None,
        metric_name: None,
    }
}

fn define(id: &str) -> AttributeDef {
    AttributeDef {
        id: id.to_string(),
        brief: None,
        note: None,
        typ: TypeField::Unspecified,
        requirement: None,
        stability: None,
        examples: None,
    }
}

fn reference(id: &str) -> AttributeRef {
    AttributeRef {
        id: id.to_string(),
        brief: None,
        note: None,
        requirement: None,
        examples: None,
        acknowledges_deprecation: false,
    }
}

#[test]
fn resolution_is_idempotent() {
    let docs = vec![doc(
        "d1",
        vec![
            {
                let mut p = group("p", Some(GroupKind::AttributeGroup));
                p.attributes.push(AttributeEntry::Define(define("a.b")));
                p
            },
            {
                let mut c = group("c", Some(GroupKind::AttributeGroup));
                c.extends = Some("p".to_string());
                c.attributes.push(AttributeEntry::Define(define("c.own")));
                c
            },
            group("", Some(GroupKind::Span)),
        ],
    )];
    let (reg1, diag1) = resolve_documents(&docs);
    let (reg2, diag2) = resolve_documents(&docs);
    assert_eq!(reg1, reg2);
    assert_eq!(diag1.messages, diag2.messages);
    assert_eq!(diag1.is_fatal, diag2.is_fatal);
}

#[test]
fn override_keeps_inherited_fields() {
    let mut parent = group("p", Some(GroupKind::AttributeGroup));
    let mut parent_attr = define("a.b");
    parent_attr.brief = Some("X".to_string());
    parent_attr.requirement = Some(RequirementLevel::Recommended);
    parent.attributes.push(AttributeEntry::Define(parent_attr));

    let mut child = group("c", Some(GroupKind::AttributeGroup));
    child.extends = Some("p".to_string());
    let mut child_attr = define("a.b");
    child_attr.requirement = Some(RequirementLevel::Required);
    child.attributes.push(AttributeEntry::Define(child_attr));

    let (registry, result) = resolve_documents(&vec![doc("d1", vec![parent, child])]);
    assert!(result.is_ok());
    assert!(result.messages.is_empty());

    let c = registry.lookup(&"c".to_string()).expect("child resolved");
    let c = registry.get(c);
    assert_eq!(c.attributes.len(), 1);
    assert_eq!(c.attributes[0].id, "a.b".to_string());
    assert_eq!(c.attributes[0].brief, Some("X".to_string()));
    assert!(matches!(
        c.attributes[0].requirement,
        RequirementLevel::Required
    ));
    assert_eq!(c.required, vec!["a.b".to_string()]);
    assert!(c.optional.is_empty());
}

#[test]
fn cycle_resolves_locally_with_one_error_each() {
    let mut a = group("a", Some(GroupKind::AttributeGroup));
    a.extends = Some("b".to_string());
    a.attributes.push(AttributeEntry::Define(define("a.own")));
    let mut b = group("b", Some(GroupKind::AttributeGroup));
    b.extends = Some("a".to_string());
    b.attributes.push(AttributeEntry::Define(define("b.own")));

    let (registry, result) = resolve_documents(&vec![doc("d1", vec![a, b])]);
    assert!(result.is_err());

    let cycle_errors: Vec<_> = result
        .messages
        .iter()
        .filter(|d| matches!(d.code, DiagnosticCode::ExtendsCycle))
        .collect();
    assert_eq!(cycle_errors.len(), 2);
    assert_eq!(cycle_errors[0].group_id, "a".to_string());
    assert_eq!(cycle_errors[1].group_id, "b".to_string());
    assert_eq!(
        cycle_errors[0].related,
        vec!["a".to_string(), "b".to_string()]
    );
    assert_eq!(result.messages.len(), 2);

    let a = registry.get(registry.lookup(&"a".to_string()).unwrap());
    assert_eq!(a.attributes.len(), 1);
    assert_eq!(a.attributes[0].id, "a.own".to_string());
    let b = registry.get(registry.lookup(&"b".to_string()).unwrap());
    assert_eq!(b.attributes.len(), 1);
    assert_eq!(b.attributes[0].id, "b.own".to_string());
}

#[test]
fn duplicate_id_first_wins_with_one_error() {
    let first = doc("d1", vec![group("g1", Some(GroupKind::Span))]);
    let second = doc("d2", vec![group("g1", Some(GroupKind::Event))]);
    let (registry, result) = resolve_documents(&vec![first, second]);

    assert_eq!(registry.len(), 1);
    let g = registry.get(registry.lookup(&"g1".to_string()).unwrap());
    assert!(matches!(g.kind, GroupKind::Span));
    assert_eq!(g.doc_id, "d1".to_string());

    assert!(result.is_err());
    assert_eq!(result.messages.len(), 1);
    assert!(matches!(
        result.messages[0].code,
        DiagnosticCode::DuplicateGroupId
    ));
    assert_eq!(result.messages[0].doc_id, "d2".to_string());
    assert_eq!(result.messages[0].group_id, "g1".to_string());
}

#[test]
fn end_to_end_metric_with_references() {
    let mut error_group = group("error", Some(GroupKind::AttributeGroup));
    let mut error_type = define("error.type");
    error_type.typ = TypeField::Given(AttributeType::Enumeration {
        members: Vec::new(),
        fallback: false,
    });
    error_group
        .attributes
        .push(AttributeEntry::Define(error_type));

    let mut http_group = group("registry.http", Some(GroupKind::AttributeGroup));
    http_group
        .attributes
        .push(AttributeEntry::Define(define("http.request.method")));

    let mut metric = group("http.server.request.duration", Some(GroupKind::Metric));
    metric.instrument = Some(InstrumentKind::Histogram);
    metric.unit = Some("s".to_string());
    metric.metric_name = Some("http.server.request.duration".to_string());
    let mut method_ref = reference("http.request.method");
    method_ref.requirement = Some(RequirementLevel::Required);
    metric.attributes.push(AttributeEntry::Reference(method_ref));
    let mut error_ref = reference("error.type");
    error_ref.requirement = Some(RequirementLevel::OptIn);
    metric.attributes.push(AttributeEntry::Reference(error_ref));

    let docs = vec![doc("d1", vec![error_group, http_group, metric])];
    let (registry, result) = resolve_documents(&docs);

    assert!(result.is_ok());
    assert!(result.messages.is_empty());

    let m = registry.get(
        registry
            .lookup(&"http.server.request.duration".to_string())
            .unwrap(),
    );
    assert!(matches!(m.kind, GroupKind::Metric));
    assert!(matches!(m.instrument, Some(InstrumentKind::Histogram)));
    assert_eq!(m.unit, Some("s".to_string()));
    assert_eq!(m.required, vec!["http.request.method".to_string()]);
    assert!(m.optional.contains(&"error.type".to_string()));

    let e = registry.get(registry.lookup(&"error".to_string()).unwrap());
    match &e.attributes[0].typ {
        AttributeType::Enumeration { members, fallback } => {
            assert!(members.is_empty());
            assert!(*fallback);
        }
        other => panic!("expected an enumeration, got {:?}", other),
    }
}

#[test]
fn loader_drops_malformed_records() {
    let mut bad_type = group("g3", Some(GroupKind::AttributeGroup));
    let mut attr = define("a");
    attr.typ = TypeField::Malformed;
    bad_type.attributes.push(AttributeEntry::Define(attr));

    let docs = vec![doc(
        "d1",
        vec![
            group("", Some(GroupKind::Span)),
            group("g2", None),
            bad_type,
            group("g4", Some(GroupKind::Resource)),
        ],
    )];
    let (registry, result) = resolve_documents(&docs);

    assert_eq!(registry.len(), 1);
    assert!(registry.lookup(&"g4".to_string()).is_some());
    assert!(result.is_err());
    assert_eq!(result.messages.len(), 3);
    assert!(matches!(
        result.messages[0].code,
        DiagnosticCode::MissingGroupId
    ));
    assert!(matches!(
        result.messages[1].code,
        DiagnosticCode::UnknownGroupKind
    ));
    assert!(matches!(
        result.messages[2].code,
        DiagnosticCode::MalformedAttributeType
    ));
}

#[test]
fn unresolved_extends_target_degrades() {
    let mut c = group("c", Some(GroupKind::AttributeGroup));
    c.extends = Some("missing".to_string());
    c.attributes.push(AttributeEntry::Define(define("c.own")));

    let (registry, result) = resolve_documents(&vec![doc("d1", vec![c])]);
    assert!(result.is_err());
    assert_eq!(result.messages.len(), 1);
    let d = &result.messages[0];
    assert!(matches!(d.code, DiagnosticCode::UnresolvedExtendsTarget));
    assert_eq!(d.group_id, "c".to_string());
    assert_eq!(d.subject, Some("missing".to_string()));

    let c = registry.get(registry.lookup(&"c".to_string()).unwrap());
    assert_eq!(c.attributes.len(), 1);
    assert_eq!(c.attributes[0].id, "c.own".to_string());
}

#[test]
fn conflicting_attribute_types_are_reported() {
    let mut g = group("g", Some(GroupKind::AttributeGroup));
    let mut first = define("a");
    first.typ = TypeField::Given(AttributeType::Primitive);
    let mut second = define("a");
    second.typ = TypeField::Given(AttributeType::Array);
    g.attributes.push(AttributeEntry::Define(first));
    g.attributes.push(AttributeEntry::Define(second));

    let (_registry, result) = resolve_documents(&vec![doc("d1", vec![g])]);
    assert!(result.is_err());
    assert_eq!(result.messages.len(), 1);
    let d = &result.messages[0];
    assert!(matches!(d.code, DiagnosticCode::ConflictingAttributeType));
    assert_eq!(d.subject, Some("a".to_string()));
}

#[test]
fn metric_missing_fields_are_reported() {
    let metric = group("m", Some(GroupKind::Metric));
    let (_registry, result) = resolve_documents(&vec![doc("d1", vec![metric])]);
    assert!(result.is_err());
    assert_eq!(result.messages.len(), 2);
    assert!(matches!(
        result.messages[0].code,
        DiagnosticCode::MetricMissingInstrument
    ));
    assert!(matches!(
        result.messages[1].code,
        DiagnosticCode::MetricMissingUnit
    ));
}

#[test]
fn unknown_reference_is_reported() {
    let mut g = group("g", Some(GroupKind::Span));
    g.attributes
        .push(AttributeEntry::Reference(reference("nowhere.defined")));
    let (_registry, result) = resolve_documents(&vec![doc("d1", vec![g])]);
    assert!(result.is_err());
    assert_eq!(result.messages.len(), 1);
    let d = &result.messages[0];
    assert!(matches!(d.code, DiagnosticCode::UnknownAttributeReference));
    assert_eq!(d.subject, Some("nowhere.defined".to_string()));
}

fn deprecated_pool_group() -> GroupRecord {
    let mut pool_group = group("old", Some(GroupKind::AttributeGroup));
    let mut old_attr = define("old.attr");
    old_attr.stability = Some(Stability::Deprecated);
    pool_group.attributes.push(AttributeEntry::Define(old_attr));
    pool_group
}

fn deprecated_user_group(acknowledges: bool) -> GroupRecord {
    let mut user = group("user", Some(GroupKind::Span));
    let mut r = reference("old.attr");
    r.acknowledges_deprecation = acknowledges;
    user.attributes.push(AttributeEntry::Reference(r));
    user
}

#[test]
fn deprecated_reference_warns_without_acknowledgement() {
    let (_registry, result) = resolve_documents(&vec![doc(
        "d1",
        vec![deprecated_pool_group(), deprecated_user_group(false)],
    )]);
    assert!(!result.is_fatal);
    assert_eq!(result.messages.len(), 1);
    let d = &result.messages[0];
    assert!(matches!(d.severity, Severity::Warning));
    assert!(matches!(d.code, DiagnosticCode::DeprecatedReference));

    let (_registry, result) = resolve_documents(&vec![doc(
        "d1",
        vec![deprecated_pool_group(), deprecated_user_group(true)],
    )]);
    assert!(result.messages.is_empty());
}

#[test]
fn diagnostic_message_text_is_stable() {
    let first = doc("d1", vec![group("g1", Some(GroupKind::Span))]);
    let second = doc("d2", vec![group("g1", Some(GroupKind::Event))]);
    let (_registry, result) = resolve_documents(&vec![first, second]);
    assert_eq!(
        result.messages[0].message(),
        "error: d2/g1: duplicate group id, first definition wins".to_string()
    );

    let mut g = group("g", Some(GroupKind::Span));
    g.attributes
        .push(AttributeEntry::Reference(reference("nowhere.defined")));
    let (_registry, result) = resolve_documents(&vec![doc("d3", vec![g])]);
    assert_eq!(
        result.messages[0].message(),
        "error: d3/g: reference to an unknown attribute id `nowhere.defined`".to_string()
    );
}

#[test]
fn attribute_order_keeps_ancestors_first() {
    let mut parent = group("p", Some(GroupKind::AttributeGroup));
    let mut required_attr = define("p.first");
    required_attr.requirement = Some(RequirementLevel::Required);
    parent.attributes.push(AttributeEntry::Define(required_attr));
    parent.attributes.push(AttributeEntry::Define(define("p.second")));

    let mut child = group("c", Some(GroupKind::AttributeGroup));
    child.extends = Some("p".to_string());
    let mut own = define("c.own");
    own.requirement = Some(RequirementLevel::Required);
    child.attributes.push(AttributeEntry::Define(own));

    let (registry, result) = resolve_documents(&vec![doc("d1", vec![parent, child])]);
    assert!(result.is_ok());
    let c = registry.get(registry.lookup(&"c".to_string()).unwrap());
    let ids: Vec<String> = c.attributes.iter().map(|a| a.id.clone()).collect();
    assert_eq!(
        ids,
        vec![
            "p.first".to_string(),
            "p.second".to_string(),
            "c.own".to_string()
        ]
    );
    assert_eq!(
        c.required,
        vec!["p.first".to_string(), "c.own".to_string()]
    );
    assert_eq!(c.optional, vec!["p.second".to_string()]);
}

#[test]
fn empty_input_resolves_to_empty_registry() {
    let (registry, result) = resolve_documents(&Vec::new());
    assert_eq!(registry.len(), 0);
    assert!(result.is_ok());
    assert!(!result.has_messages());
}
