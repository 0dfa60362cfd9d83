//! The data model of a semantic-convention registry.
//!
//! Exec types come in pairs with ghost model types (`Spec*`): every contract
//! of the resolution pipeline is stated over the models, which abstract each
//! string as a `Seq<char>`. Raw records ([`GroupRecord`], [`DocumentRecord`])
//! are the already-parsed input handed in by a schema-document parser;
//! [`RawGroup`] is a validated record; [`ResolvedAttribute`] and
//! [`ResolvedGroup`] are the immutable output of the inheritance merge.

use vstd::prelude::*;
use vstd::string::StringExecFns;

verus! {

/// How severe a diagnostic is: a warning never gates artifact emission, an
/// error makes the run fatal.
#[derive(Debug, Clone, Copy, PartialEq, Eq, Structural)]
pub enum Severity {
    Warning,
    Error,
}

/// The condition a diagnostic reports.
#[derive(Debug, Clone, Copy, PartialEq, Eq, Structural)]
pub enum DiagnosticCode {
    /// A document entry has no group id.
    MissingGroupId,
    /// A document entry has a missing or unknown group kind.
    UnknownGroupKind,
    /// An attribute definition's type could not be understood.
    MalformedAttributeType,
    /// The same group id is defined by two documents; the first wins.
    DuplicateGroupId,
    /// A group extends a parent that is missing or did not resolve.
    UnresolvedExtendsTarget,
    /// A group's `extends` chain comes back to the group itself.
    ExtendsCycle,
    /// An attribute id is defined twice in one group with two types.
    ConflictingAttributeType,
    /// A metric group declares no instrument kind.
    MetricMissingInstrument,
    /// A metric group declares no unit.
    MetricMissingUnit,
    /// A group references an attribute id that no definition supplies.
    UnknownAttributeReference,
    /// A non-deprecated group references a deprecated attribute without
    /// acknowledging the deprecation.
    DeprecatedReference,
}

/// The kind of a definition group.
#[derive(Debug, Clone, Copy, PartialEq, Eq, Structural)]
pub enum GroupKind {
    AttributeGroup,
    Metric,
    Span,
    Event,
    Resource,
}

/// The instrument of a metric group.
#[derive(Debug, Clone, Copy, PartialEq, Eq, Structural)]
pub enum InstrumentKind {
    Counter,
    Histogram,
    Gauge,
    UpDownCounter,
}

/// How strongly an attribute is required within its group.
#[derive(Debug, Clone, Copy, PartialEq, Eq, Structural)]
pub enum RequirementLevel {
    Required,
    Recommended,
    OptIn,
}

/// The stability of an attribute definition.
#[derive(Debug, Clone, Copy, PartialEq, Eq, Structural)]
pub enum Stability {
    Stable,
    Experimental,
    Deprecated,
}

/// Model of a sequence of strings.
pub open spec fn strings_view(v: Seq<String>) -> Seq<Seq<char>> {
    v.map_values(|s: String| s@)
}

/// Model of an optional string.
pub open spec fn opt_string_view(o: Option<String>) -> Option<Seq<char>> {
    match o {
        Option::Some(s) => Option::Some(s@),
        Option::None => Option::None,
    }
}

/// Model of an [`AttributeType`].
#[verifier::ext_equal]
pub ghost enum SpecAttributeType {
    Primitive,
    Enumeration { members: Seq<Seq<char>>, fallback: bool },
    Array,
}

/// The type of an attribute: a primitive value, a closed enumeration of
/// named members (plus, after resolution, an implicit free-form fallback
/// member), or an array.
#[derive(Debug, PartialEq)]
pub enum AttributeType {
    Primitive,
    Enumeration { members: Vec<String>, fallback: bool },
    Array,
}

impl View for AttributeType {
    type V = SpecAttributeType;

    open spec fn view(&self) -> SpecAttributeType {
        match self {
            AttributeType::Primitive => SpecAttributeType::Primitive,
            AttributeType::Enumeration { members, fallback } => SpecAttributeType::Enumeration {
                members: strings_view(members@),
                fallback: *fallback,
            },
            AttributeType::Array => SpecAttributeType::Array,
        }
    }
}

/// Model of a [`TypeField`].
#[verifier::ext_equal]
pub ghost enum SpecTypeField {
    Unspecified,
    Malformed,
    Given(SpecAttributeType),
}

/// The type field of a raw attribute definition as the document parser saw
/// it: absent, present but not understandable, or a known type.
#[derive(Debug, PartialEq)]
pub enum TypeField {
    Unspecified,
    Malformed,
    Given(AttributeType),
}

impl View for TypeField {
    type V = SpecTypeField;

    open spec fn view(&self) -> SpecTypeField {
        match self {
            TypeField::Unspecified => SpecTypeField::Unspecified,
            TypeField::Malformed => SpecTypeField::Malformed,
            TypeField::Given(t) => SpecTypeField::Given(t@),
        }
    }
}

/// Model of an [`AttributeDef`].
#[verifier::ext_equal]
pub ghost struct SpecAttributeDef {
    pub id: Seq<char>,
    pub brief: Option<Seq<char>>,
    pub note: Option<Seq<char>>,
    pub typ: SpecTypeField,
    pub requirement: Option<RequirementLevel>,
    pub stability: Option<Stability>,
    pub examples: Option<Seq<Seq<char>>>,
}

/// An inline attribute definition inside a group record. Fields left `None`
/// are not declared by the document; on an attribute id that a group
/// inherits, only the declared fields override the inherited ones.
#[derive(Debug, PartialEq)]
pub struct AttributeDef {
    pub id: String,
    pub brief: Option<String>,
    pub note: Option<String>,
    pub typ: TypeField,
    pub requirement: Option<RequirementLevel>,
    pub stability: Option<Stability>,
    pub examples: Option<Vec<String>>,
}

impl View for AttributeDef {
    type V = SpecAttributeDef;

    open spec fn view(&self) -> SpecAttributeDef {
        SpecAttributeDef {
            id: self.id@,
            brief: opt_string_view(self.brief),
            note: opt_string_view(self.note),
            typ: self.typ@,
            requirement: self.requirement,
            stability: self.stability,
            examples: match self.examples {
                Option::Some(v) => Option::Some(strings_view(v@)),
                Option::None => Option::None,
            },
        }
    }
}

/// Model of an [`AttributeRef`].
#[verifier::ext_equal]
pub ghost struct SpecAttributeRef {
    pub id: Seq<char>,
    pub brief: Option<Seq<char>>,
    pub note: Option<Seq<char>>,
    pub requirement: Option<RequirementLevel>,
    pub examples: Option<Seq<Seq<char>>>,
    pub acknowledges_deprecation: bool,
}

/// A reference to an attribute defined elsewhere, with the fields the
/// referencing group redeclares.
#[derive(Debug, PartialEq)]
pub struct AttributeRef {
    pub id: String,
    pub brief: Option<String>,
    pub note: Option<String>,
    pub requirement: Option<RequirementLevel>,
    pub examples: Option<Vec<String>>,
    pub acknowledges_deprecation: bool,
}

impl View for AttributeRef {
    type V = SpecAttributeRef;

    open spec fn view(&self) -> SpecAttributeRef {
        SpecAttributeRef {
            id: self.id@,
            brief: opt_string_view(self.brief),
            note: opt_string_view(self.note),
            requirement: self.requirement,
            examples: match self.examples {
                Option::Some(v) => Option::Some(strings_view(v@)),
                Option::None => Option::None,
            },
            acknowledges_deprecation: self.acknowledges_deprecation,
        }
    }
}

/// Model of an [`AttributeEntry`].
#[verifier::ext_equal]
pub ghost enum SpecAttributeEntry {
    Define(SpecAttributeDef),
    Reference(SpecAttributeRef),
}

/// One attribute entry of a group: an inline definition or a reference.
#[derive(Debug, PartialEq)]
pub enum AttributeEntry {
    Define(AttributeDef),
    Reference(AttributeRef),
}

impl View for AttributeEntry {
    type V = SpecAttributeEntry;

    open spec fn view(&self) -> SpecAttributeEntry {
        match self {
            AttributeEntry::Define(d) => SpecAttributeEntry::Define(d@),
            AttributeEntry::Reference(r) => SpecAttributeEntry::Reference(r@),
        }
    }
}

/// Model of a sequence of attribute entries.
pub open spec fn entries_view(v: Seq<AttributeEntry>) -> Seq<SpecAttributeEntry> {
    v.map_values(|e: AttributeEntry| e@)
}

/// Model of a [`GroupRecord`].
#[verifier::ext_equal]
pub ghost struct SpecGroupRecord {
    pub id: Seq<char>,
    pub kind: Option<GroupKind>,
    pub extends: Option<Seq<char>>,
    pub deprecated: bool,
    pub attributes: Seq<SpecAttributeEntry>,
    pub instrument: Option<InstrumentKind>,
    pub unit: Option<Seq<char>>,
    pub metric_name: Option<Seq<char>>,
}

/// A group definition as it stands in a parsed document, before validation.
/// An empty `id` means the document declared none; `kind` is `None` when the
/// declared kind is missing or unknown.
#[derive(Debug, PartialEq)]
pub struct GroupRecord {
    pub id: String,
    pub kind: Option<GroupKind>,
    pub extends: Option<String>,
    pub deprecated: bool,
    pub attributes: Vec<AttributeEntry>,
    pub instrument: Option<InstrumentKind>,
    pub unit: Option<String>,
    pub metric_name: Option<String>,
}

impl View for GroupRecord {
    type V = SpecGroupRecord;

    open spec fn view(&self) -> SpecGroupRecord {
        SpecGroupRecord {
            id: self.id@,
            kind: self.kind,
            extends: opt_string_view(self.extends),
            deprecated: self.deprecated,
            attributes: entries_view(self.attributes@),
            instrument: self.instrument,
            unit: opt_string_view(self.unit),
            metric_name: opt_string_view(self.metric_name),
        }
    }
}

/// Model of a [`DocumentRecord`].
#[verifier::ext_equal]
pub ghost struct SpecDocument {
    pub doc_id: Seq<char>,
    pub groups: Seq<SpecGroupRecord>,
}

/// One already-parsed schema document: its identifier and its group records.
#[derive(Debug, PartialEq)]
pub struct DocumentRecord {
    pub doc_id: String,
    pub groups: Vec<GroupRecord>,
}

impl View for DocumentRecord {
    type V = SpecDocument;

    open spec fn view(&self) -> SpecDocument {
        SpecDocument {
            doc_id: self.doc_id@,
            groups: self.groups@.map_values(|g: GroupRecord| g@),
        }
    }
}

/// Model of a [`RawGroup`].
#[verifier::ext_equal]
pub ghost struct SpecRawGroup {
    pub id: Seq<char>,
    pub doc_id: Seq<char>,
    pub kind: GroupKind,
    pub extends: Option<Seq<char>>,
    pub deprecated: bool,
    pub attributes: Seq<SpecAttributeEntry>,
    pub instrument: Option<InstrumentKind>,
    pub unit: Option<Seq<char>>,
    pub metric_name: Option<Seq<char>>,
}

/// A validated group record, tagged with the document that defined it.
#[derive(Debug, PartialEq)]
pub struct RawGroup {
    pub id: String,
    pub doc_id: String,
    pub kind: GroupKind,
    pub extends: Option<String>,
    pub deprecated: bool,
    pub attributes: Vec<AttributeEntry>,
    pub instrument: Option<InstrumentKind>,
    pub unit: Option<String>,
    pub metric_name: Option<String>,
}

impl View for RawGroup {
    type V = SpecRawGroup;

    open spec fn view(&self) -> SpecRawGroup {
        SpecRawGroup {
            id: self.id@,
            doc_id: self.doc_id@,
            kind: self.kind,
            extends: opt_string_view(self.extends),
            deprecated: self.deprecated,
            attributes: entries_view(self.attributes@),
            instrument: self.instrument,
            unit: opt_string_view(self.unit),
            metric_name: opt_string_view(self.metric_name),
        }
    }
}

/// Model of a sequence of raw groups.
pub open spec fn raw_groups_view(v: Seq<RawGroup>) -> Seq<SpecRawGroup> {
    v.map_values(|g: RawGroup| g@)
}

/// Model of a [`ResolvedAttribute`].
#[verifier::ext_equal]
pub ghost struct SpecAttribute {
    pub id: Seq<char>,
    pub brief: Option<Seq<char>>,
    pub note: Option<Seq<char>>,
    pub typ: SpecAttributeType,
    pub requirement: RequirementLevel,
    pub stability: Stability,
    pub examples: Seq<Seq<char>>,
}

/// An attribute after the inheritance merge. Every field is settled; an
/// enumeration type always carries the implicit fallback member.
#[derive(Debug, PartialEq)]
pub struct ResolvedAttribute {
    pub id: String,
    pub brief: Option<String>,
    pub note: Option<String>,
    pub typ: AttributeType,
    pub requirement: RequirementLevel,
    pub stability: Stability,
    pub examples: Vec<String>,
}

impl View for ResolvedAttribute {
    type V = SpecAttribute;

    open spec fn view(&self) -> SpecAttribute {
        SpecAttribute {
            id: self.id@,
            brief: opt_string_view(self.brief),
            note: opt_string_view(self.note),
            typ: self.typ@,
            requirement: self.requirement,
            stability: self.stability,
            examples: strings_view(self.examples@),
        }
    }
}

/// Model of a sequence of resolved attributes.
pub open spec fn attrs_view(v: Seq<ResolvedAttribute>) -> Seq<SpecAttribute> {
    v.map_values(|a: ResolvedAttribute| a@)
}

/// Model of a [`ResolvedGroup`].
#[verifier::ext_equal]
pub ghost struct SpecResolvedGroup {
    pub id: Seq<char>,
    pub doc_id: Seq<char>,
    pub kind: GroupKind,
    pub deprecated: bool,
    pub attributes: Seq<SpecAttribute>,
    pub required: Seq<Seq<char>>,
    pub optional: Seq<Seq<char>>,
    pub instrument: Option<InstrumentKind>,
    pub unit: Option<Seq<char>>,
    pub metric_name: Option<Seq<char>>,
}

/// A group after the inheritance merge: the union of all ancestor attributes
/// plus its own, ancestors' first, with the attribute ids partitioned into
/// the required and the optional set in attribute order.
#[derive(Debug, PartialEq)]
pub struct ResolvedGroup {
    pub id: String,
    pub doc_id: String,
    pub kind: GroupKind,
    pub deprecated: bool,
    pub attributes: Vec<ResolvedAttribute>,
    pub required: Vec<String>,
    pub optional: Vec<String>,
    pub instrument: Option<InstrumentKind>,
    pub unit: Option<String>,
    pub metric_name: Option<String>,
}

impl View for ResolvedGroup {
    type V = SpecResolvedGroup;

    open spec fn view(&self) -> SpecResolvedGroup {
        SpecResolvedGroup {
            id: self.id@,
            doc_id: self.doc_id@,
            kind: self.kind,
            deprecated: self.deprecated,
            attributes: attrs_view(self.attributes@),
            required: strings_view(self.required@),
            optional: strings_view(self.optional@),
            instrument: self.instrument,
            unit: opt_string_view(self.unit),
            metric_name: opt_string_view(self.metric_name),
        }
    }
}

/// Model of a [`Diagnostic`].
#[verifier::ext_equal]
pub ghost struct SpecDiagnostic {
    pub severity: Severity,
    pub code: DiagnosticCode,
    pub doc_id: Seq<char>,
    pub group_id: Seq<char>,
    pub subject: Option<Seq<char>>,
    pub related: Seq<Seq<char>>,
}

/// One problem found during resolution: its severity, what happened, and
/// where (the document and group it originates from). `subject` names the
/// identifier the diagnostic is about (an attribute id, an `extends`
/// target); `related` lists further identifiers involved, such as the
/// members of an `extends` cycle.
#[derive(Debug, PartialEq)]
pub struct Diagnostic {
    pub severity: Severity,
    pub code: DiagnosticCode,
    pub doc_id: String,
    pub group_id: String,
    pub subject: Option<String>,
    pub related: Vec<String>,
}

impl View for Diagnostic {
    type V = SpecDiagnostic;

    open spec fn view(&self) -> SpecDiagnostic {
        SpecDiagnostic {
            severity: self.severity,
            code: self.code,
            doc_id: self.doc_id@,
            group_id: self.group_id@,
            subject: opt_string_view(self.subject),
            related: strings_view(self.related@),
        }
    }
}

/// Model of a sequence of diagnostics.
pub open spec fn diags_view(v: Seq<Diagnostic>) -> Seq<SpecDiagnostic> {
    v.map_values(|d: Diagnostic| d@)
}

/// Clones a string list; the model is unchanged.
pub fn clone_strings(v: &Vec<String>) -> (r: Vec<String>)
    ensures
        r@ == v@,
{
    let mut r: Vec<String> = Vec::new();
    let mut i: usize = 0;
    while i < v.len()
        invariant
            i <= v.len(),
            r@ == v@.take(i as int),
        decreases v.len() - i,
    {
        r.push(v[i].clone());
        i = i + 1;
        proof {
            assert(r@ =~= v@.take(i as int));
        }
    }
    proof {
        assert(v@.take(v@.len() as int) =~= v@);
    }
    r
}

/// Clones an optional string; the model is unchanged.
pub fn clone_opt_string(o: &Option<String>) -> (r: Option<String>)
    ensures
        r == o,
{
    match o {
        Option::Some(s) => Option::Some(s.clone()),
        Option::None => Option::None,
    }
}

impl Clone for AttributeType {
    /// Clones the type; the model is unchanged.
    fn clone(&self) -> (r: Self)
        ensures
            r@ == self@,
    {
        match self {
            AttributeType::Primitive => AttributeType::Primitive,
            AttributeType::Enumeration { members, fallback } => AttributeType::Enumeration {
                members: clone_strings(members),
                fallback: *fallback,
            },
            AttributeType::Array => AttributeType::Array,
        }
    }
}

impl Clone for TypeField {
    /// Clones the type field; the model is unchanged.
    fn clone(&self) -> (r: Self)
        ensures
            r@ == self@,
    {
        match self {
            TypeField::Unspecified => TypeField::Unspecified,
            TypeField::Malformed => TypeField::Malformed,
            TypeField::Given(t) => TypeField::Given(t.clone()),
        }
    }
}

impl Clone for AttributeDef {
    /// Clones the definition; the model is unchanged.
    fn clone(&self) -> (r: Self)
        ensures
            r@ == self@,
    {
        AttributeDef {
            id: self.id.clone(),
            brief: clone_opt_string(&self.brief),
            note: clone_opt_string(&self.note),
            typ: self.typ.clone(),
            requirement: self.requirement,
            stability: self.stability,
            examples: match &self.examples {
                Option::Some(v) => Option::Some(clone_strings(v)),
                Option::None => Option::None,
            },
        }
    }
}

impl Clone for AttributeRef {
    /// Clones the reference; the model is unchanged.
    fn clone(&self) -> (r: Self)
        ensures
            r@ == self@,
    {
        AttributeRef {
            id: self.id.clone(),
            brief: clone_opt_string(&self.brief),
            note: clone_opt_string(&self.note),
            requirement: self.requirement,
            examples: match &self.examples {
                Option::Some(v) => Option::Some(clone_strings(v)),
                Option::None => Option::None,
            },
            acknowledges_deprecation: self.acknowledges_deprecation,
        }
    }
}

impl Clone for AttributeEntry {
    /// Clones the entry; the model is unchanged.
    fn clone(&self) -> (r: Self)
        ensures
            r@ == self@,
    {
        match self {
            AttributeEntry::Define(d) => AttributeEntry::Define(d.clone()),
            AttributeEntry::Reference(rf) => AttributeEntry::Reference(rf.clone()),
        }
    }
}

/// Clones an attribute entry list; the model is unchanged.
pub fn clone_entries(v: &Vec<AttributeEntry>) -> (r: Vec<AttributeEntry>)
    ensures
        entries_view(r@) == entries_view(v@),
{
    let mut r: Vec<AttributeEntry> = Vec::new();
    let mut i: usize = 0;
    while i < v.len()
        invariant
            i <= v.len(),
            r@.len() == i as int,
            forall|k: int| 0 <= k < i ==> #[trigger] r@[k]@ == v@[k]@,
        decreases v.len() - i,
    {
        r.push(v[i].clone());
        i = i + 1;
    }
    proof {
        assert(entries_view(r@) =~= entries_view(v@));
    }
    r
}

impl Clone for RawGroup {
    /// Clones the group; the model is unchanged.
    fn clone(&self) -> (r: Self)
        ensures
            r@ == self@,
    {
        RawGroup {
            id: self.id.clone(),
            doc_id: self.doc_id.clone(),
            kind: self.kind,
            extends: clone_opt_string(&self.extends),
            deprecated: self.deprecated,
            attributes: clone_entries(&self.attributes),
            instrument: self.instrument,
            unit: clone_opt_string(&self.unit),
            metric_name: clone_opt_string(&self.metric_name),
        }
    }
}

impl Clone for ResolvedAttribute {
    /// Clones the attribute; the model is unchanged.
    fn clone(&self) -> (r: Self)
        ensures
            r@ == self@,
    {
        ResolvedAttribute {
            id: self.id.clone(),
            brief: clone_opt_string(&self.brief),
            note: clone_opt_string(&self.note),
            typ: self.typ.clone(),
            requirement: self.requirement,
            stability: self.stability,
            examples: clone_strings(&self.examples),
        }
    }
}

/// Pushing onto a raw-group list pushes the element's model onto the model.
pub proof fn lemma_raw_groups_view_push(s: Seq<RawGroup>, g: RawGroup)
    ensures
        raw_groups_view(s.push(g)) == raw_groups_view(s).push(g@),
{
    assert(raw_groups_view(s.push(g)) =~= raw_groups_view(s).push(g@));
}

/// Pushing onto a diagnostic list pushes the element's model onto the model.
pub proof fn lemma_diags_view_push(s: Seq<Diagnostic>, d: Diagnostic)
    ensures
        diags_view(s.push(d)) == diags_view(s).push(d@),
{
    assert(diags_view(s.push(d)) =~= diags_view(s).push(d@));
}

/// Pushing onto an attribute list pushes the element's model onto the model.
pub proof fn lemma_attrs_view_push(s: Seq<ResolvedAttribute>, a: ResolvedAttribute)
    ensures
        attrs_view(s.push(a)) == attrs_view(s).push(a@),
{
    assert(attrs_view(s.push(a)) =~= attrs_view(s).push(a@));
}

/// Updating an attribute list updates the same place of the model.
pub proof fn lemma_attrs_view_update(s: Seq<ResolvedAttribute>, i: int, a: ResolvedAttribute)
    requires
        0 <= i < s.len(),
    ensures
        attrs_view(s.update(i, a)) == attrs_view(s).update(i, a@),
{
    assert(attrs_view(s.update(i, a)) =~= attrs_view(s).update(i, a@));
}

/// Pushing onto a string list pushes the string's model onto the model.
pub proof fn lemma_strings_view_push(s: Seq<String>, x: String)
    ensures
        strings_view(s.push(x)) == strings_view(s).push(x@),
{
    assert(strings_view(s.push(x)) =~= strings_view(s).push(x@));
}

/// Concatenating raw-group lists concatenates their models.
pub proof fn lemma_raw_groups_view_concat(a: Seq<RawGroup>, b: Seq<RawGroup>)
    ensures
        raw_groups_view(a + b) == raw_groups_view(a) + raw_groups_view(b),
{
    assert(raw_groups_view(a + b) =~= raw_groups_view(a) + raw_groups_view(b));
}

/// Concatenating diagnostic lists concatenates their models.
pub proof fn lemma_diags_view_concat(a: Seq<Diagnostic>, b: Seq<Diagnostic>)
    ensures
        diags_view(a + b) == diags_view(a) + diags_view(b),
{
    assert(diags_view(a + b) =~= diags_view(a) + diags_view(b));
}

/// Taking one element more of a list takes that element's model more of the
/// model.
pub proof fn lemma_take_one_more<T>(s: Seq<T>, i: int)
    requires
        0 <= i < s.len(),
    ensures
        s.take(i + 1).drop_last() == s.take(i),
        s.take(i + 1).last() == s[i],
        s.take(s.len() as int) == s,
{
    assert(s.take(i + 1).drop_last() =~= s.take(i));
    assert(s.take(s.len() as int) =~= s);
}

/// The phrase describing a diagnostic code.
pub open spec fn code_phrase(code: DiagnosticCode) -> Seq<char> {
    match code {
        DiagnosticCode::MissingGroupId => "group definition without an id"@,
        DiagnosticCode::UnknownGroupKind => "missing or unknown group kind"@,
        DiagnosticCode::MalformedAttributeType => "malformed attribute type"@,
        DiagnosticCode::DuplicateGroupId => "duplicate group id, first definition wins"@,
        DiagnosticCode::UnresolvedExtendsTarget => "unresolved extends target"@,
        DiagnosticCode::ExtendsCycle => "extends cycle"@,
        DiagnosticCode::ConflictingAttributeType => "attribute id defined twice with two types"@,
        DiagnosticCode::MetricMissingInstrument => "metric group without an instrument kind"@,
        DiagnosticCode::MetricMissingUnit => "metric group without a unit"@,
        DiagnosticCode::UnknownAttributeReference => "reference to an unknown attribute id"@,
        DiagnosticCode::DeprecatedReference => (
        "unacknowledged reference to a deprecated attribute"@),
    }
}

/// The phrase describing a severity.
pub open spec fn severity_phrase(s: Severity) -> Seq<char> {
    match s {
        Severity::Warning => "warning"@,
        Severity::Error => "error"@,
    }
}

/// The characters of a diagnostic's human-readable text: severity, origin
/// (document and group), the condition, and the identifier it is about.
pub open spec fn message_view(d: SpecDiagnostic) -> Seq<char> {
    severity_phrase(d.severity) + ": "@ + d.doc_id + "/"@ + d.group_id + ": "@ + code_phrase(
        d.code,
    ) + (match d.subject {
        Option::Some(s) => " `"@ + s + "`"@,
        Option::None => Seq::empty(),
    })
}

impl Diagnostic {
    /// The human-readable text of the diagnostic, stable for snapshot
    /// testing: severity, origin, condition, and the identifier concerned.
    pub fn message(&self) -> (r: String)
        ensures
            r@ == message_view(self@),
    {
        let mut s = String::new();
        let severity_text = match self.severity {
            Severity::Warning => "warning",
            Severity::Error => "error",
        };
        s.append(severity_text);
        s.append(": ");
        s.append(self.doc_id.as_str());
        s.append("/");
        s.append(self.group_id.as_str());
        s.append(": ");
        let code_text = match self.code {
            DiagnosticCode::MissingGroupId => "group definition without an id",
            DiagnosticCode::UnknownGroupKind => "missing or unknown group kind",
            DiagnosticCode::MalformedAttributeType => "malformed attribute type",
            DiagnosticCode::DuplicateGroupId => "duplicate group id, first definition wins",
            DiagnosticCode::UnresolvedExtendsTarget => "unresolved extends target",
            DiagnosticCode::ExtendsCycle => "extends cycle",
            DiagnosticCode::ConflictingAttributeType => "attribute id defined twice with two types",
            DiagnosticCode::MetricMissingInstrument => "metric group without an instrument kind",
            DiagnosticCode::MetricMissingUnit => "metric group without a unit",
            DiagnosticCode::UnknownAttributeReference => "reference to an unknown attribute id",
            DiagnosticCode::DeprecatedReference => (
            "unacknowledged reference to a deprecated attribute"),
        };
        s.append(code_text);
        match &self.subject {
            Option::Some(sub) => {
                s.append(" `");
                s.append(sub.as_str());
                s.append("`");
            },
            Option::None => {
            },
        }
        proof {
            assert(s@ =~= message_view(self@));
        }
        s
    }
}

impl Clone for Diagnostic {
    /// Clones the diagnostic; the model is unchanged.
    fn clone(&self) -> (r: Self)
        ensures
            r@ == self@,
    {
        Diagnostic {
            severity: self.severity,
            code: self.code,
            doc_id: self.doc_id.clone(),
            group_id: self.group_id.clone(),
            subject: clone_opt_string(&self.subject),
            related: clone_strings(&self.related),
        }
    }
}

} // verus!
