//! The inheritance resolver: merging `extends` chains into resolved groups.
//!
//! Each group resolves independently of the others. Its `extends` chain is
//! walked upward; the merged attribute list starts from the parent's and the
//! group's own entries are applied in order, an entry on an inherited id
//! overriding only the fields it redeclares. A group on an `extends` cycle
//! resolves with its local entries only and reports one cycle error; a group
//! whose parent is missing or on a cycle does the same with an
//! unresolved-target error. References resolve against the pool of every
//! inline definition in the registry. A resolved enumeration type always
//! carries the implicit fallback member, and the attribute ids are
//! partitioned into the required and the optional set in attribute order.

use vstd::pervasive::VecAdditionalExecFns;
use vstd::prelude::*;

use crate::lookup::attr_ids;
use crate::lookup::find_attr;
use crate::lookup::find_group;
use crate::lookup::find_id;
use crate::lookup::group_ids;
use crate::lookup::string_eq;
use crate::model::attrs_view;
use crate::model::clone_opt_string;
use crate::model::clone_strings;
use crate::model::diags_view;
use crate::model::lemma_attrs_view_push;
use crate::model::lemma_attrs_view_update;
use crate::model::lemma_strings_view_push;
use crate::model::opt_string_view;
use crate::model::raw_groups_view;
use crate::model::strings_view;
use crate::model::AttributeDef;
use crate::model::AttributeEntry;
use crate::model::AttributeType;
use crate::model::Diagnostic;
use crate::model::DiagnosticCode;
use crate::model::RawGroup;
use crate::model::RequirementLevel;
use crate::model::ResolvedAttribute;
use crate::model::Severity;
use crate::model::SpecAttribute;
use crate::model::SpecAttributeDef;
use crate::model::SpecAttributeEntry;
use crate::model::SpecAttributeRef;
use crate::model::SpecAttributeType;
use crate::model::SpecDiagnostic;
use crate::model::SpecRawGroup;
use crate::model::SpecTypeField;
use crate::model::Stability;
use crate::model::TypeField;

verus! {

/// An enumeration type with the implicit fallback member present; any other
/// type unchanged.
pub open spec fn with_fallback(t: SpecAttributeType) -> SpecAttributeType {
    match t {
        SpecAttributeType::Enumeration { members, fallback } => SpecAttributeType::Enumeration {
            members: members,
            fallback: true,
        },
        _ => t,
    }
}

/// The type a definition's type field settles to: an absent field defaults
/// to a primitive.
pub open spec fn type_of_field(t: SpecTypeField) -> SpecAttributeType {
    match t {
        SpecTypeField::Given(ty) => ty,
        _ => SpecAttributeType::Primitive,
    }
}

/// The resolved attribute a fresh inline definition settles to: absent
/// fields take their defaults, and an enumeration always gains the implicit
/// fallback member.
pub open spec fn def_attr(d: SpecAttributeDef) -> SpecAttribute {
    SpecAttribute {
        id: d.id,
        brief: d.brief,
        note: d.note,
        typ: with_fallback(type_of_field(d.typ)),
        requirement: match d.requirement {
            Option::Some(r) => r,
            Option::None => RequirementLevel::Recommended,
        },
        stability: match d.stability {
            Option::Some(s) => s,
            Option::None => Stability::Experimental,
        },
        examples: match d.examples {
            Option::Some(e) => e,
            Option::None => Seq::empty(),
        },
    }
}

/// An inherited attribute overridden by a redeclaration: only the fields the
/// definition declares change; id, type and stability are retained.
pub open spec fn override_with_def(a: SpecAttribute, d: SpecAttributeDef) -> SpecAttribute {
    SpecAttribute {
        id: a.id,
        brief: match d.brief {
            Option::Some(b) => Option::Some(b),
            Option::None => a.brief,
        },
        note: match d.note {
            Option::Some(x) => Option::Some(x),
            Option::None => a.note,
        },
        typ: a.typ,
        requirement: match d.requirement {
            Option::Some(x) => x,
            Option::None => a.requirement,
        },
        stability: a.stability,
        examples: match d.examples {
            Option::Some(e) => e,
            Option::None => a.examples,
        },
    }
}

/// An attribute overridden by a reference: only the fields the reference
/// redeclares change; id, type and stability are retained.
pub open spec fn override_with_ref(a: SpecAttribute, rf: SpecAttributeRef) -> SpecAttribute {
    SpecAttribute {
        id: a.id,
        brief: match rf.brief {
            Option::Some(b) => Option::Some(b),
            Option::None => a.brief,
        },
        note: match rf.note {
            Option::Some(x) => Option::Some(x),
            Option::None => a.note,
        },
        typ: a.typ,
        requirement: match rf.requirement {
            Option::Some(x) => x,
            Option::None => a.requirement,
        },
        stability: a.stability,
        examples: match rf.examples {
            Option::Some(e) => e,
            Option::None => a.examples,
        },
    }
}

/// Law: an override keeps every field the redeclaration leaves out and
/// replaces every field it declares; the identifier, the type and the
/// stability of the inherited attribute are always retained.
pub proof fn lemma_override_fields(a: SpecAttribute, d: SpecAttributeDef)
    ensures
        override_with_def(a, d).id == a.id,
        override_with_def(a, d).typ == a.typ,
        override_with_def(a, d).stability == a.stability,
        d.brief is None ==> override_with_def(a, d).brief == a.brief,
        d.brief is Some ==> override_with_def(a, d).brief == d.brief,
        d.note is None ==> override_with_def(a, d).note == a.note,
        d.note is Some ==> override_with_def(a, d).note == d.note,
        d.requirement is None ==> override_with_def(a, d).requirement == a.requirement,
        d.requirement is Some ==> Option::Some(override_with_def(a, d).requirement)
            == d.requirement,
        d.examples is None ==> override_with_def(a, d).examples == a.examples,
        d.examples is Some ==> Option::Some(override_with_def(a, d).examples) == d.examples,
{
}

/// The pool contributions of the first `n` entries of a group: one resolved
/// attribute per inline definition, in order.
pub open spec fn defs_of(entries: Seq<SpecAttributeEntry>, n: int) -> Seq<SpecAttribute>
    decreases n,
{
    if n <= 0 {
        Seq::empty()
    } else {
        let prefix = defs_of(entries, n - 1);
        match entries[n - 1] {
            SpecAttributeEntry::Define(d) => prefix.push(def_attr(d)),
            SpecAttributeEntry::Reference(_) => prefix,
        }
    }
}

/// The attribute pool of the first `n` groups of the registry: every inline
/// definition, in registry order. References resolve against it.
pub open spec fn spec_pool(reg: Seq<SpecRawGroup>, n: int) -> Seq<SpecAttribute>
    decreases n,
{
    if n <= 0 {
        Seq::empty()
    } else {
        spec_pool(reg, n - 1) + defs_of(
            reg[n - 1].attributes,
            reg[n - 1].attributes.len() as int,
        )
    }
}

/// Whether following `extends` edges from `from` arrives at `target` within
/// `fuel` steps.
pub open spec fn reaches(
    reg: Seq<SpecRawGroup>,
    from: Seq<char>,
    target: Seq<char>,
    fuel: nat,
) -> bool
    decreases fuel,
{
    if fuel == 0 {
        false
    } else {
        match find_id(group_ids(reg), from) {
            Option::None => false,
            Option::Some(i) => match reg[i].extends {
                Option::None => false,
                Option::Some(p) => p == target || reaches(reg, p, target, (fuel - 1) as nat),
            },
        }
    }
}

/// Whether a group lies on an `extends` cycle: its own chain comes back to
/// it. Any cycle has at most as many members as the registry has groups, so
/// that many steps decide it.
pub open spec fn on_cycle(reg: Seq<SpecRawGroup>, gid: Seq<char>) -> bool {
    reaches(reg, gid, gid, reg.len())
}

/// The ids visited from `from` until `target` is reached: for a group on a
/// cycle, the members of its cycle, the group itself first.
pub open spec fn cycle_path(
    reg: Seq<SpecRawGroup>,
    from: Seq<char>,
    target: Seq<char>,
    fuel: nat,
) -> Seq<Seq<char>>
    decreases fuel,
{
    if fuel == 0 {
        Seq::empty()
    } else {
        match find_id(group_ids(reg), from) {
            Option::None => Seq::empty(),
            Option::Some(i) => match reg[i].extends {
                Option::None => Seq::empty(),
                Option::Some(p) => if p == target {
                    seq![from]
                } else {
                    seq![from] + cycle_path(reg, p, target, (fuel - 1) as nat)
                },
            },
        }
    }
}

/// Walks the `extends` chain of a group. Returns the members of the group's
/// cycle when its chain comes back to it, and nothing otherwise.
pub fn detect_cycle(reg: &Vec<RawGroup>, gid: &String) -> (r: Option<Vec<String>>)
    ensures
        (match r {
            Option::Some(p) => on_cycle(raw_groups_view(reg@), gid@) && strings_view(p@)
                == cycle_path(
                raw_groups_view(reg@),
                gid@,
                gid@,
                raw_groups_view(reg@).len(),
            ),
            Option::None => !on_cycle(raw_groups_view(reg@), gid@),
        }),
{
    let ghost regv = raw_groups_view(reg@);
    let mut cur: String = gid.clone();
    let mut path: Vec<String> = Vec::new();
    let mut fuel: usize = reg.len();
    proof {
        assert(strings_view(path@) + cycle_path(regv, cur@, gid@, fuel as nat) =~= cycle_path(
            regv,
            gid@,
            gid@,
            regv.len(),
        ));
    }
    while fuel > 0
        invariant
            regv == raw_groups_view(reg@),
            regv.len() == reg@.len(),
            fuel <= reg.len(),
            on_cycle(regv, gid@) == reaches(regv, cur@, gid@, fuel as nat),
            cycle_path(regv, gid@, gid@, regv.len()) == strings_view(path@) + cycle_path(
                regv,
                cur@,
                gid@,
                fuel as nat,
            ),
        decreases fuel,
    {
        match find_group(reg, &cur) {
            Option::None => {
                return Option::None;
            },
            Option::Some(i) => {
                let has_parent = reg[i].extends.is_some();
                if !has_parent {
                    proof {
                        assert(regv[i as int].extends is None);
                    }
                    return Option::None;
                }
                proof {
                    assert(regv[i as int].extends == opt_string_view(reg@[i as int].extends));
                }
                let p = match &reg[i].extends {
                    Option::Some(p) => p,
                    Option::None => {
                        return Option::None;
                    },
                };
                let hit = string_eq(p, gid);
                proof {
                    assert(regv[i as int].extends == Option::Some(p@));
                    lemma_strings_view_push(path@, cur);
                    if hit {
                        assert(cycle_path(regv, cur@, gid@, fuel as nat) =~= seq![cur@]);
                        assert(strings_view(path@).push(cur@) =~= strings_view(path@)
                            + seq![cur@]);
                    } else {
                        assert(cycle_path(regv, cur@, gid@, fuel as nat) =~= seq![cur@]
                            + cycle_path(regv, p@, gid@, (fuel - 1) as nat));
                        assert(strings_view(path@).push(cur@) + cycle_path(
                            regv,
                            p@,
                            gid@,
                            (fuel - 1) as nat,
                        ) =~= strings_view(path@) + cycle_path(regv, cur@, gid@, fuel as nat));
                    }
                }
                let next = p.clone();
                path.push(cur);
                if hit {
                    return Option::Some(path);
                }
                cur = next;
                fuel = fuel - 1;
            },
        }
    }
    Option::None
}

/// The resolved attribute a fresh inline definition settles to.
fn def_attr_exec(d: &AttributeDef) -> (r: ResolvedAttribute)
    ensures
        r@ == def_attr(d@),
{
    let typ = match &d.typ {
        TypeField::Given(t) => match t {
            AttributeType::Enumeration { members, fallback: _ } => AttributeType::Enumeration {
                members: clone_strings(members),
                fallback: true,
            },
            AttributeType::Primitive => AttributeType::Primitive,
            AttributeType::Array => AttributeType::Array,
        },
        _ => AttributeType::Primitive,
    };
    let r = ResolvedAttribute {
        id: d.id.clone(),
        brief: clone_opt_string(&d.brief),
        note: clone_opt_string(&d.note),
        typ: typ,
        requirement: match d.requirement {
            Option::Some(x) => x,
            Option::None => RequirementLevel::Recommended,
        },
        stability: match d.stability {
            Option::Some(x) => x,
            Option::None => Stability::Experimental,
        },
        examples: match &d.examples {
            Option::Some(e) => clone_strings(e),
            Option::None => Vec::new(),
        },
    };
    proof {
        assert(r@.typ =~= def_attr(d@).typ);
        assert(r@.examples =~= def_attr(d@).examples);
        assert(r@ =~= def_attr(d@));
    }
    r
}

/// An inherited attribute overridden by a redeclaration.
fn override_def_exec(a: &ResolvedAttribute, d: &AttributeDef) -> (r: ResolvedAttribute)
    ensures
        r@ == override_with_def(a@, d@),
{
    let r = ResolvedAttribute {
        id: a.id.clone(),
        brief: match &d.brief {
            Option::Some(b) => Option::Some(b.clone()),
            Option::None => clone_opt_string(&a.brief),
        },
        note: match &d.note {
            Option::Some(x) => Option::Some(x.clone()),
            Option::None => clone_opt_string(&a.note),
        },
        typ: a.typ.clone(),
        requirement: match d.requirement {
            Option::Some(x) => x,
            Option::None => a.requirement,
        },
        stability: a.stability,
        examples: match &d.examples {
            Option::Some(e) => clone_strings(e),
            Option::None => clone_strings(&a.examples),
        },
    };
    proof {
        assert(r@ =~= override_with_def(a@, d@));
    }
    r
}

/// An attribute overridden by a reference.
fn override_ref_exec(a: &ResolvedAttribute, rf: &crate::model::AttributeRef) -> (r:
    ResolvedAttribute)
    ensures
        r@ == override_with_ref(a@, rf@),
{
    let r = ResolvedAttribute {
        id: a.id.clone(),
        brief: match &rf.brief {
            Option::Some(b) => Option::Some(b.clone()),
            Option::None => clone_opt_string(&a.brief),
        },
        note: match &rf.note {
            Option::Some(x) => Option::Some(x.clone()),
            Option::None => clone_opt_string(&a.note),
        },
        typ: a.typ.clone(),
        requirement: match rf.requirement {
            Option::Some(x) => x,
            Option::None => a.requirement,
        },
        stability: a.stability,
        examples: match &rf.examples {
            Option::Some(e) => clone_strings(e),
            Option::None => clone_strings(&a.examples),
        },
    };
    proof {
        assert(r@ =~= override_with_ref(a@, rf@));
    }
    r
}

/// Builds the attribute pool: every inline definition of the registry, in
/// registry order.
pub fn build_pool(reg: &Vec<RawGroup>) -> (r: Vec<ResolvedAttribute>)
    ensures
        attrs_view(r@) == spec_pool(raw_groups_view(reg@), reg@.len() as int),
{
    let ghost regv = raw_groups_view(reg@);
    let mut pool: Vec<ResolvedAttribute> = Vec::new();
    let mut i: usize = 0;
    while i < reg.len()
        invariant
            i <= reg.len(),
            regv == raw_groups_view(reg@),
            regv.len() == reg@.len(),
            attrs_view(pool@) == spec_pool(regv, i as int),
        decreases reg.len() - i,
    {
        let ghost entries = regv[i as int].attributes;
        let mut j: usize = 0;
        let n = reg[i].attributes.len();
        proof {
            assert(entries.len() == n as int);
            assert(attrs_view(pool@) + defs_of(entries, 0) =~= attrs_view(pool@));
        }
        let ghost before = attrs_view(pool@);
        while j < n
            invariant
                j <= n,
                i < reg.len(),
                n == reg@[i as int].attributes.len(),
                regv == raw_groups_view(reg@),
                entries == regv[i as int].attributes,
                entries.len() == n as int,
                attrs_view(pool@) == before + defs_of(entries, j as int),
            decreases n - j,
        {
            proof {
                assert(entries[j as int] == reg@[i as int].attributes@[j as int]@);
            }
            match &reg[i].attributes[j] {
                AttributeEntry::Define(d) => {
                    let a = def_attr_exec(d);
                    proof {
                        lemma_attrs_view_push(pool@, a);
                        assert(attrs_view(pool@).push(a@) =~= before + defs_of(
                            entries,
                            j as int + 1,
                        ));
                    }
                    pool.push(a);
                },
                AttributeEntry::Reference(_) => {
                },
            }
            j = j + 1;
        }
        proof {
            assert(spec_pool(regv, i as int + 1) == spec_pool(regv, i as int) + defs_of(
                entries,
                entries.len() as int,
            ));
        }
        i = i + 1;
    }
    pool
}

/// One entry applied onto a merged attribute list: a definition or
/// reference on an id already present overrides it in place; a fresh
/// definition appends; a fresh reference appends what the pool supplies for
/// its id, or nothing when the pool has nothing.
pub open spec fn apply_entry(
    pool: Seq<SpecAttribute>,
    cur: Seq<SpecAttribute>,
    e: SpecAttributeEntry,
) -> Seq<SpecAttribute> {
    match e {
        SpecAttributeEntry::Define(d) => match find_id(attr_ids(cur), d.id) {
            Option::Some(i) => cur.update(i, override_with_def(cur[i], d)),
            Option::None => cur.push(def_attr(d)),
        },
        SpecAttributeEntry::Reference(rf) => match find_id(attr_ids(cur), rf.id) {
            Option::Some(i) => cur.update(i, override_with_ref(cur[i], rf)),
            Option::None => match find_id(attr_ids(pool), rf.id) {
                Option::Some(i) => cur.push(override_with_ref(pool[i], rf)),
                Option::None => cur,
            },
        },
    }
}

/// The first `n` entries applied in order.
pub open spec fn apply_entries(
    pool: Seq<SpecAttribute>,
    cur: Seq<SpecAttribute>,
    entries: Seq<SpecAttributeEntry>,
    n: int,
) -> Seq<SpecAttribute>
    decreases n,
{
    if n <= 0 {
        cur
    } else {
        apply_entry(pool, apply_entries(pool, cur, entries, n - 1), entries[n - 1])
    }
}

/// The merged attribute list of the group with the given id: the parent's
/// merged list — empty for a group on a cycle, without a parent, or with a
/// missing or cyclic parent — with the group's own entries applied in
/// order.
pub open spec fn merged_attrs(
    reg: Seq<SpecRawGroup>,
    pool: Seq<SpecAttribute>,
    gid: Seq<char>,
    fuel: nat,
) -> Seq<SpecAttribute>
    decreases fuel,
{
    match find_id(group_ids(reg), gid) {
        Option::None => Seq::empty(),
        Option::Some(i) => {
            let g = reg[i];
            let base = if on_cycle(reg, gid) {
                Seq::empty()
            } else {
                match g.extends {
                    Option::None => Seq::empty(),
                    Option::Some(p) => if fuel == 0 {
                        Seq::empty()
                    } else if find_id(group_ids(reg), p) is None || on_cycle(reg, p) {
                        Seq::empty()
                    } else {
                        merged_attrs(reg, pool, p, (fuel - 1) as nat)
                    },
                }
            };
            apply_entries(pool, base, g.attributes, g.attributes.len() as int)
        },
    }
}

/// Law: a group on an `extends` cycle resolves from its local entries
/// alone; no inherited attribute enters its merged list.
pub proof fn lemma_cycle_resolves_locally(
    reg: Seq<SpecRawGroup>,
    pool: Seq<SpecAttribute>,
    gid: Seq<char>,
    fuel: nat,
    i: int,
)
    requires
        on_cycle(reg, gid),
        find_id(group_ids(reg), gid) == Option::Some(i),
    ensures
        0 <= i < reg.len(),
        merged_attrs(reg, pool, gid, fuel) == apply_entries(
            pool,
            Seq::empty(),
            reg[i].attributes,
            reg[i].attributes.len() as int,
        ),
{
    crate::lookup::lemma_find_id_properties(group_ids(reg), gid);
}

/// The merged attribute list of one group, computed against the registry
/// and the pool. `fuel` bounds the chain walk; one step per registry group
/// always suffices.
pub fn merged_attrs_exec(
    reg: &Vec<RawGroup>,
    pool: &Vec<ResolvedAttribute>,
    gid: &String,
    fuel: usize,
) -> (r: Vec<ResolvedAttribute>)
    ensures
        attrs_view(r@) == merged_attrs(raw_groups_view(reg@), attrs_view(pool@), gid@, fuel as nat),
    decreases fuel,
{
    let ghost regv = raw_groups_view(reg@);
    let ghost poolv = attrs_view(pool@);
    let idx = match find_group(reg, gid) {
        Option::Some(i) => i,
        Option::None => {
            let r: Vec<ResolvedAttribute> = Vec::new();
            proof {
                assert(attrs_view(r@) =~= merged_attrs(regv, poolv, gid@, fuel as nat));
            }
            return r;
        },
    };
    let mut cur: Vec<ResolvedAttribute>;
    let own_cycle = detect_cycle(reg, gid).is_some();
    if own_cycle {
        cur = Vec::new();
    } else {
        let has_parent = reg[idx].extends.is_some();
        if !has_parent {
            proof {
                assert(regv[idx as int].extends is None);
            }
            cur = Vec::new();
        } else {
            let p = match &reg[idx].extends {
                Option::Some(p) => p,
                Option::None => {
                    return Vec::new();
                },
            };
            proof {
                assert(regv[idx as int].extends == Option::Some(p@));
            }
            if fuel == 0 {
                cur = Vec::new();
            } else {
                let parent_missing = match find_group(reg, p) {
                    Option::Some(_) => false,
                    Option::None => true,
                };
                let parent_cycle = if parent_missing {
                    false
                } else {
                    detect_cycle(reg, p).is_some()
                };
                if parent_missing || parent_cycle {
                    cur = Vec::new();
                } else {
                    cur = merged_attrs_exec(reg, pool, p, fuel - 1);
                }
            }
        }
    }
    let ghost base = attrs_view(cur@);
    proof {
        assert(attrs_view(Seq::<ResolvedAttribute>::empty()) =~= Seq::<SpecAttribute>::empty());
        assert(base == (if on_cycle(regv, gid@) {
            Seq::<SpecAttribute>::empty()
        } else {
            match regv[idx as int].extends {
                Option::None => Seq::<SpecAttribute>::empty(),
                Option::Some(p) => if fuel == 0 {
                    Seq::<SpecAttribute>::empty()
                } else if find_id(group_ids(regv), p) is None || on_cycle(regv, p) {
                    Seq::<SpecAttribute>::empty()
                } else {
                    merged_attrs(regv, poolv, p, (fuel - 1) as nat)
                },
            }
        }));
    }
    let ghost entries = regv[idx as int].attributes;
    let n = reg[idx].attributes.len();
    proof {
        assert(entries.len() == n as int);
    }
    let mut j: usize = 0;
    while j < n
        invariant
            j <= n,
            idx < reg.len(),
            n == reg@[idx as int].attributes.len(),
            regv == raw_groups_view(reg@),
            poolv == attrs_view(pool@),
            entries == regv[idx as int].attributes,
            entries.len() == n as int,
            attrs_view(cur@) == apply_entries(poolv, base, entries, j as int),
        decreases n - j,
    {
        proof {
            assert(entries[j as int] == reg@[idx as int].attributes@[j as int]@);
        }
        match &reg[idx].attributes[j] {
            AttributeEntry::Define(d) => {
                match find_attr(&cur, &d.id) {
                    Option::Some(k) => {
                        let updated = override_def_exec(&cur[k], d);
                        proof {
                            lemma_attrs_view_update(cur@, k as int, updated);
                        }
                        cur.set(k, updated);
                    },
                    Option::None => {
                        let a = def_attr_exec(d);
                        proof {
                            lemma_attrs_view_push(cur@, a);
                        }
                        cur.push(a);
                    },
                }
            },
            AttributeEntry::Reference(rf) => {
                match find_attr(&cur, &rf.id) {
                    Option::Some(k) => {
                        let updated = override_ref_exec(&cur[k], rf);
                        proof {
                            lemma_attrs_view_update(cur@, k as int, updated);
                        }
                        cur.set(k, updated);
                    },
                    Option::None => {
                        match find_attr(pool, &rf.id) {
                            Option::Some(k) => {
                                let a = override_ref_exec(&pool[k], rf);
                                proof {
                                    lemma_attrs_view_push(cur@, a);
                                }
                                cur.push(a);
                            },
                            Option::None => {
                            },
                        }
                    },
                }
            },
        }
        j = j + 1;
    }
    cur
}

/// The required attribute ids of the first `n` merged attributes, in
/// attribute order (ancestors' attributes precede child-only ones).
pub open spec fn required_ids(attrs: Seq<SpecAttribute>, n: int) -> Seq<Seq<char>>
    decreases n,
{
    if n <= 0 {
        Seq::empty()
    } else {
        let prefix = required_ids(attrs, n - 1);
        if attrs[n - 1].requirement == RequirementLevel::Required {
            prefix.push(attrs[n - 1].id)
        } else {
            prefix
        }
    }
}

/// The optional attribute ids of the first `n` merged attributes — every
/// requirement level but `Required` — in attribute order.
pub open spec fn optional_ids(attrs: Seq<SpecAttribute>, n: int) -> Seq<Seq<char>>
    decreases n,
{
    if n <= 0 {
        Seq::empty()
    } else {
        let prefix = optional_ids(attrs, n - 1);
        if attrs[n - 1].requirement == RequirementLevel::Required {
            prefix
        } else {
            prefix.push(attrs[n - 1].id)
        }
    }
}

/// Splits a merged attribute list into the required and the optional id
/// set, both in attribute order.
pub fn partition_ids(attrs: &Vec<ResolvedAttribute>) -> (r: (Vec<String>, Vec<String>))
    ensures
        strings_view(r.0@) == required_ids(attrs_view(attrs@), attrs@.len() as int),
        strings_view(r.1@) == optional_ids(attrs_view(attrs@), attrs@.len() as int),
{
    let ghost av = attrs_view(attrs@);
    let mut required: Vec<String> = Vec::new();
    let mut optional: Vec<String> = Vec::new();
    let mut j: usize = 0;
    proof {
        assert(strings_view(required@) =~= required_ids(av, 0));
        assert(strings_view(optional@) =~= optional_ids(av, 0));
    }
    while j < attrs.len()
        invariant
            j <= attrs.len(),
            av == attrs_view(attrs@),
            av.len() == attrs@.len(),
            strings_view(required@) == required_ids(av, j as int),
            strings_view(optional@) == optional_ids(av, j as int),
        decreases attrs.len() - j,
    {
        proof {
            assert(av[j as int] == attrs@[j as int]@);
        }
        let is_required = match attrs[j].requirement {
            RequirementLevel::Required => true,
            _ => false,
        };
        let id = attrs[j].id.clone();
        if is_required {
            proof {
                lemma_strings_view_push(required@, id);
            }
            required.push(id);
        } else {
            proof {
                lemma_strings_view_push(optional@, id);
            }
            optional.push(id);
        }
        j = j + 1;
    }
    (required, optional)
}

/// Law: the requirement partition is complete — every merged attribute lands
/// in the required or the optional set, and in no other place.
pub proof fn lemma_partition_complete(attrs: Seq<SpecAttribute>, n: int)
    requires
        0 <= n <= attrs.len(),
    ensures
        required_ids(attrs, n).len() + optional_ids(attrs, n).len() == n,
    decreases n,
{
    if n > 0 {
        lemma_partition_complete(attrs, n - 1);
    }
}

/// Whether an attribute's type carries the implicit fallback wherever it is
/// an enumeration.
pub open spec fn attr_normalized(a: SpecAttribute) -> bool {
    match a.typ {
        SpecAttributeType::Enumeration { members, fallback } => fallback,
        _ => true,
    }
}

/// Whether every attribute of a list is normalized.
pub open spec fn attrs_normalized(s: Seq<SpecAttribute>) -> bool {
    forall|i: int| 0 <= i < s.len() ==> attr_normalized(#[trigger] s[i])
}

/// One entry applied onto a normalized list against a normalized pool keeps
/// the list normalized: a fresh definition gains the fallback, an override
/// keeps the inherited type.
proof fn lemma_apply_entry_normalized(
    pool: Seq<SpecAttribute>,
    cur: Seq<SpecAttribute>,
    e: SpecAttributeEntry,
)
    requires
        attrs_normalized(pool),
        attrs_normalized(cur),
    ensures
        attrs_normalized(apply_entry(pool, cur, e)),
{
    let r = apply_entry(pool, cur, e);
    assert forall|i: int| 0 <= i < r.len() implies attr_normalized(#[trigger] r[i]) by {
        match e {
            SpecAttributeEntry::Define(d) => {
                crate::lookup::lemma_find_id_properties(attr_ids(cur), d.id);
                match find_id(attr_ids(cur), d.id) {
                    Option::Some(k) => {
                        assert(attr_normalized(cur[k]));
                        assert(attr_normalized(cur[i]));
                    },
                    Option::None => {
                        if i < cur.len() {
                            assert(attr_normalized(cur[i]));
                        } else {
                            assert(r[i] == def_attr(d));
                        }
                    },
                }
            },
            SpecAttributeEntry::Reference(rf) => {
                crate::lookup::lemma_find_id_properties(attr_ids(cur), rf.id);
                crate::lookup::lemma_find_id_properties(attr_ids(pool), rf.id);
                match find_id(attr_ids(cur), rf.id) {
                    Option::Some(k) => {
                        assert(attr_normalized(cur[k]));
                        assert(attr_normalized(cur[i]));
                    },
                    Option::None => {
                        match find_id(attr_ids(pool), rf.id) {
                            Option::Some(k) => {
                                assert(attr_normalized(pool[k]));
                                if i < cur.len() {
                                    assert(attr_normalized(cur[i]));
                                } else {
                                    assert(r[i] == override_with_ref(pool[k], rf));
                                }
                            },
                            Option::None => {
                                assert(attr_normalized(cur[i]));
                            },
                        }
                    },
                }
            },
        }
    }
}

/// Entries applied in order keep a normalized list normalized.
proof fn lemma_apply_entries_normalized(
    pool: Seq<SpecAttribute>,
    cur: Seq<SpecAttribute>,
    entries: Seq<SpecAttributeEntry>,
    n: int,
)
    requires
        attrs_normalized(pool),
        attrs_normalized(cur),
    ensures
        attrs_normalized(apply_entries(pool, cur, entries, n)),
    decreases n,
{
    if n > 0 {
        lemma_apply_entries_normalized(pool, cur, entries, n - 1);
        lemma_apply_entry_normalized(
            pool,
            apply_entries(pool, cur, entries, n - 1),
            entries[n - 1],
        );
    }
}

/// The pool contributions of a group's entries are normalized.
proof fn lemma_defs_of_normalized(entries: Seq<SpecAttributeEntry>, n: int)
    ensures
        attrs_normalized(defs_of(entries, n)),
    decreases n,
{
    if n > 0 {
        lemma_defs_of_normalized(entries, n - 1);
        let prefix = defs_of(entries, n - 1);
        let r = defs_of(entries, n);
        assert forall|i: int| 0 <= i < r.len() implies attr_normalized(#[trigger] r[i]) by {
            if i < prefix.len() {
                assert(attr_normalized(prefix[i]));
            }
        }
    }
}

/// The attribute pool is normalized.
proof fn lemma_pool_normalized(reg: Seq<SpecRawGroup>, n: int)
    ensures
        attrs_normalized(spec_pool(reg, n)),
    decreases n,
{
    if n > 0 {
        lemma_pool_normalized(reg, n - 1);
        lemma_defs_of_normalized(reg[n - 1].attributes, reg[n - 1].attributes.len() as int);
        let a = spec_pool(reg, n - 1);
        let b = defs_of(reg[n - 1].attributes, reg[n - 1].attributes.len() as int);
        assert forall|i: int| 0 <= i < (a + b).len() implies attr_normalized(
            #[trigger] (a + b)[i],
        ) by {
            if i < a.len() {
                assert(attr_normalized(a[i]));
            } else {
                assert((a + b)[i] == b[i - a.len()]);
                assert(attr_normalized(b[i - a.len()]));
            }
        }
    }
}

/// A merged list against a normalized pool is normalized.
proof fn lemma_merged_attrs_normalized(
    reg: Seq<SpecRawGroup>,
    pool: Seq<SpecAttribute>,
    gid: Seq<char>,
    fuel: nat,
)
    requires
        attrs_normalized(pool),
    ensures
        attrs_normalized(merged_attrs(reg, pool, gid, fuel)),
    decreases fuel,
{
    match find_id(group_ids(reg), gid) {
        Option::None => {
        },
        Option::Some(i) => {
            let g = reg[i];
            if !on_cycle(reg, gid) {
                match g.extends {
                    Option::Some(p) => {
                        if fuel > 0 && !(find_id(group_ids(reg), p) is None || on_cycle(reg, p)) {
                            lemma_merged_attrs_normalized(reg, pool, p, (fuel - 1) as nat);
                        }
                    },
                    Option::None => {
                    },
                }
            }
            lemma_apply_entries_normalized(
                pool,
                (if on_cycle(reg, gid) {
                    Seq::empty()
                } else {
                    match g.extends {
                        Option::None => Seq::empty(),
                        Option::Some(p) => if fuel == 0 {
                            Seq::empty()
                        } else if find_id(group_ids(reg), p) is None || on_cycle(reg, p) {
                            Seq::empty()
                        } else {
                            merged_attrs(reg, pool, p, (fuel - 1) as nat)
                        },
                    }
                }),
                g.attributes,
                g.attributes.len() as int,
            );
        },
    }
}

/// Law: every enumeration-typed attribute of a resolved group carries the
/// implicit fallback member, whatever the source declared; the declared
/// named members and their display order are kept (see `with_fallback`).
pub proof fn lemma_resolved_enumerations_carry_fallback(reg: Seq<SpecRawGroup>, gid: Seq<char>)
    ensures
        attrs_normalized(
            merged_attrs(reg, spec_pool(reg, reg.len() as int), gid, reg.len() as nat),
        ),
{
    lemma_pool_normalized(reg, reg.len() as int);
    lemma_merged_attrs_normalized(reg, spec_pool(reg, reg.len() as int), gid, reg.len() as nat);
}

/// The cycle diagnostic of a group whose `extends` chain comes back to it,
/// naming the members of the cycle.
pub open spec fn cycle_diag(g: SpecRawGroup, path: Seq<Seq<char>>) -> SpecDiagnostic {
    SpecDiagnostic {
        severity: Severity::Error,
        code: DiagnosticCode::ExtendsCycle,
        doc_id: g.doc_id,
        group_id: g.id,
        subject: g.extends,
        related: path,
    }
}

/// The diagnostic of a group whose parent is missing or did not resolve.
pub open spec fn unresolved_diag(g: SpecRawGroup) -> SpecDiagnostic {
    SpecDiagnostic {
        severity: Severity::Error,
        code: DiagnosticCode::UnresolvedExtendsTarget,
        doc_id: g.doc_id,
        group_id: g.id,
        subject: g.extends,
        related: Seq::empty(),
    }
}

/// The diagnostics resolving one group yields: one cycle error for a group
/// on a cycle, one unresolved-target error for a group whose parent is
/// missing or on a cycle, nothing otherwise.
pub open spec fn resolve_diags_spec(reg: Seq<SpecRawGroup>, g: SpecRawGroup) -> Seq<
    SpecDiagnostic,
> {
    if on_cycle(reg, g.id) {
        seq![cycle_diag(g, cycle_path(reg, g.id, g.id, reg.len()))]
    } else {
        match g.extends {
            Option::None => Seq::empty(),
            Option::Some(p) => if find_id(group_ids(reg), p) is None || on_cycle(reg, p) {
                seq![unresolved_diag(g)]
            } else {
                Seq::empty()
            },
        }
    }
}

/// Law: a group on an `extends` cycle yields exactly one diagnostic, the
/// cycle error.
pub proof fn lemma_cycle_one_diagnostic(reg: Seq<SpecRawGroup>, g: SpecRawGroup)
    requires
        on_cycle(reg, g.id),
    ensures
        resolve_diags_spec(reg, g).len() == 1,
        resolve_diags_spec(reg, g)[0].code == DiagnosticCode::ExtendsCycle,
        resolve_diags_spec(reg, g)[0].severity == Severity::Error,
        resolve_diags_spec(reg, g)[0].group_id == g.id,
{
}

/// What one group resolves to: the merged attribute list, its
/// required/optional partition, and the group's own fields carried over.
pub open spec fn resolve_group_spec(
    reg: Seq<SpecRawGroup>,
    pool: Seq<SpecAttribute>,
    g: SpecRawGroup,
) -> crate::model::SpecResolvedGroup {
    let attrs = merged_attrs(reg, pool, g.id, reg.len());
    crate::model::SpecResolvedGroup {
        id: g.id,
        doc_id: g.doc_id,
        kind: g.kind,
        deprecated: g.deprecated,
        attributes: attrs,
        required: required_ids(attrs, attrs.len() as int),
        optional: optional_ids(attrs, attrs.len() as int),
        instrument: g.instrument,
        unit: g.unit,
        metric_name: g.metric_name,
    }
}

/// Resolves one group of the registry and reports its cycle or
/// unresolved-target error, if any.
pub fn resolve_group(reg: &Vec<RawGroup>, pool: &Vec<ResolvedAttribute>, g: &RawGroup) -> (r: (
    crate::model::ResolvedGroup,
    Vec<Diagnostic>,
))
    ensures
        r.0@ == resolve_group_spec(raw_groups_view(reg@), attrs_view(pool@), g@),
        diags_view(r.1@) == resolve_diags_spec(raw_groups_view(reg@), g@),
{
    let ghost regv = raw_groups_view(reg@);
    let cycle = detect_cycle(reg, &g.id);
    let attrs = merged_attrs_exec(reg, pool, &g.id, reg.len());
    let (required, optional) = partition_ids(&attrs);
    let mut diags: Vec<Diagnostic> = Vec::new();
    match cycle {
        Option::Some(path) => {
            let d = Diagnostic {
                severity: Severity::Error,
                code: DiagnosticCode::ExtendsCycle,
                doc_id: g.doc_id.clone(),
                group_id: g.id.clone(),
                subject: clone_opt_string(&g.extends),
                related: path,
            };
            proof {
                assert(d@ =~= cycle_diag(g@, cycle_path(regv, g@.id, g@.id, regv.len())));
            }
            diags.push(d);
            proof {
                assert(diags_view(diags@) =~= resolve_diags_spec(regv, g@));
            }
        },
        Option::None => {
            let unresolved = match &g.extends {
                Option::Some(p) => {
                    let missing = match find_group(reg, p) {
                        Option::Some(_) => false,
                        Option::None => true,
                    };
                    proof {
                        assert(g@.extends == Option::Some(p@));
                    }
                    if missing {
                        true
                    } else {
                        detect_cycle(reg, p).is_some()
                    }
                },
                Option::None => false,
            };
            if unresolved {
                let d = Diagnostic {
                    severity: Severity::Error,
                    code: DiagnosticCode::UnresolvedExtendsTarget,
                    doc_id: g.doc_id.clone(),
                    group_id: g.id.clone(),
                    subject: clone_opt_string(&g.extends),
                    related: Vec::new(),
                };
                proof {
                    assert(d@ =~= unresolved_diag(g@));
                }
                diags.push(d);
                proof {
                    assert(diags_view(diags@) =~= resolve_diags_spec(regv, g@));
                }
            } else {
                proof {
                    assert(diags_view(diags@) =~= resolve_diags_spec(regv, g@));
                }
            }
        },
    }
    let group = crate::model::ResolvedGroup {
        id: g.id.clone(),
        doc_id: g.doc_id.clone(),
        kind: g.kind,
        deprecated: g.deprecated,
        attributes: attrs,
        required: required,
        optional: optional,
        instrument: g.instrument,
        unit: clone_opt_string(&g.unit),
        metric_name: clone_opt_string(&g.metric_name),
    };
    proof {
        assert(group@ =~= resolve_group_spec(regv, attrs_view(pool@), g@));
    }
    (group, diags)
}

} // verus!
