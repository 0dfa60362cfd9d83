//! First-match lookup by identifier.
//!
//! Groups and attributes are kept in insertion order and addressed by their
//! id; every table of the pipeline resolves an id to the first entry that
//! carries it. [`find_id`] is the one spec-level notion of "first index
//! with this id"; the exec finders below search each concrete table against
//! it.

use vstd::prelude::*;

use crate::model::attrs_view;
use crate::model::raw_groups_view;
use crate::model::RawGroup;
use crate::model::ResolvedAttribute;
use crate::model::ResolvedGroup;
use crate::model::SpecAttribute;
use crate::model::SpecRawGroup;
use crate::model::SpecResolvedGroup;

verus! {

/// The first index holding `id`, if any.
pub open spec fn find_id(ids: Seq<Seq<char>>, id: Seq<char>) -> Option<int>
    decreases ids.len(),
{
    if ids.len() == 0 {
        Option::None
    } else if ids[0] == id {
        Option::Some(0int)
    } else {
        match find_id(ids.skip(1), id) {
            Option::Some(i) => Option::Some(i + 1),
            Option::None => Option::None,
        }
    }
}

/// The ids of a raw-group table, in order.
pub open spec fn group_ids(reg: Seq<SpecRawGroup>) -> Seq<Seq<char>> {
    reg.map_values(|g: SpecRawGroup| g.id)
}

/// The ids of an attribute list, in order.
pub open spec fn attr_ids(attrs: Seq<SpecAttribute>) -> Seq<Seq<char>> {
    attrs.map_values(|a: SpecAttribute| a.id)
}

/// The ids of a resolved-group table, in order.
pub open spec fn resolved_ids(groups: Seq<SpecResolvedGroup>) -> Seq<Seq<char>> {
    groups.map_values(|g: SpecResolvedGroup| g.id)
}

/// What a found index means: it is the first place holding the id.
pub proof fn lemma_find_id_properties(ids: Seq<Seq<char>>, id: Seq<char>)
    ensures
        (match find_id(ids, id) {
            Option::Some(i) => 0 <= i < ids.len() && ids[i] == id && (forall|j: int|
                0 <= j < i ==> ids[j] != id),
            Option::None => forall|j: int| 0 <= j < ids.len() ==> ids[j] != id,
        }),
    decreases ids.len(),
{
    if ids.len() == 0 {
    } else if ids[0] == id {
    } else {
        lemma_find_id_properties(ids.skip(1), id);
        assert(forall|j: int| 1 <= j < ids.len() ==> #[trigger] ids[j] == ids.skip(1)[j - 1]);
    }
}

/// Searching past a prefix without the id only shifts the found index.
pub proof fn lemma_find_id_skip(ids: Seq<Seq<char>>, id: Seq<char>, j: int)
    requires
        0 <= j <= ids.len(),
        forall|k: int| 0 <= k < j ==> ids[k] != id,
    ensures
        find_id(ids, id) == (match find_id(ids.skip(j), id) {
            Option::Some(i) => Option::Some(i + j),
            Option::None => Option::None,
        }),
    decreases j,
{
    if j == 0 {
        assert(ids.skip(0) =~= ids);
    } else {
        lemma_find_id_skip(ids, id, j - 1);
        assert(ids.skip(j - 1).len() == ids.len() - j + 1);
        assert(ids.skip(j - 1)[0] == ids[j - 1]);
        assert(ids.skip(j - 1).skip(1) =~= ids.skip(j));
    }
}

/// Whether two strings hold the same characters.
pub fn string_eq(a: &String, b: &String) -> (r: bool)
    ensures
        r == (a@ == b@),
{
    a.eq(b)
}

/// The first group of the table with the given id, if any.
pub fn find_group(reg: &Vec<RawGroup>, id: &String) -> (r: Option<usize>)
    ensures
        (match r {
            Option::Some(i) => (i as int) < reg@.len() && find_id(
                group_ids(raw_groups_view(reg@)),
                id@,
            ) == Option::Some(i as int),
            Option::None => find_id(group_ids(raw_groups_view(reg@)), id@) is None,
        }),
{
    let ghost ids = group_ids(raw_groups_view(reg@));
    let mut j: usize = 0;
    while j < reg.len()
        invariant
            j <= reg.len(),
            ids == group_ids(raw_groups_view(reg@)),
            ids.len() == reg@.len(),
            forall|k: int| 0 <= k < j ==> ids[k] != id@,
        decreases reg.len() - j,
    {
        if string_eq(&reg[j].id, id) {
            proof {
                assert(ids[j as int] == reg@[j as int]@.id);
                lemma_find_id_skip(ids, id@, j as int);
                assert(ids.skip(j as int)[0] == ids[j as int]);
                assert(find_id(ids.skip(j as int), id@) == Option::Some(0int));
            }
            return Option::Some(j);
        }
        proof {
            assert(ids[j as int] == reg@[j as int]@.id);
        }
        j = j + 1;
    }
    proof {
        lemma_find_id_skip(ids, id@, ids.len() as int);
        assert(ids.skip(ids.len() as int).len() == 0);
    }
    Option::None
}

/// The first attribute of the list with the given id, if any.
pub fn find_attr(attrs: &Vec<ResolvedAttribute>, id: &String) -> (r: Option<usize>)
    ensures
        (match r {
            Option::Some(i) => (i as int) < attrs@.len() && find_id(
                attr_ids(attrs_view(attrs@)),
                id@,
            ) == Option::Some(i as int),
            Option::None => find_id(attr_ids(attrs_view(attrs@)), id@) is None,
        }),
{
    let ghost ids = attr_ids(attrs_view(attrs@));
    let mut j: usize = 0;
    while j < attrs.len()
        invariant
            j <= attrs.len(),
            ids == attr_ids(attrs_view(attrs@)),
            ids.len() == attrs@.len(),
            forall|k: int| 0 <= k < j ==> ids[k] != id@,
        decreases attrs.len() - j,
    {
        if string_eq(&attrs[j].id, id) {
            proof {
                assert(ids[j as int] == attrs@[j as int]@.id);
                lemma_find_id_skip(ids, id@, j as int);
                assert(ids.skip(j as int)[0] == ids[j as int]);
                assert(find_id(ids.skip(j as int), id@) == Option::Some(0int));
            }
            return Option::Some(j);
        }
        proof {
            assert(ids[j as int] == attrs@[j as int]@.id);
        }
        j = j + 1;
    }
    proof {
        lemma_find_id_skip(ids, id@, ids.len() as int);
        assert(ids.skip(ids.len() as int).len() == 0);
    }
    Option::None
}

/// The model of a resolved-group table.
pub open spec fn resolved_view(groups: Seq<ResolvedGroup>) -> Seq<SpecResolvedGroup> {
    groups.map_values(|g: ResolvedGroup| g@)
}

/// The first resolved group of the table with the given id, if any.
pub fn find_resolved(groups: &Vec<ResolvedGroup>, id: &String) -> (r: Option<usize>)
    ensures
        (match r {
            Option::Some(i) => (i as int) < groups@.len() && find_id(
                resolved_ids(resolved_view(groups@)),
                id@,
            ) == Option::Some(i as int),
            Option::None => find_id(resolved_ids(resolved_view(groups@)), id@) is None,
        }),
{
    let ghost ids = resolved_ids(resolved_view(groups@));
    let mut j: usize = 0;
    while j < groups.len()
        invariant
            j <= groups.len(),
            ids == resolved_ids(resolved_view(groups@)),
            ids.len() == groups@.len(),
            forall|k: int| 0 <= k < j ==> ids[k] != id@,
        decreases groups.len() - j,
    {
        if string_eq(&groups[j].id, id) {
            proof {
                assert(ids[j as int] == groups@[j as int]@.id);
                lemma_find_id_skip(ids, id@, j as int);
                assert(ids.skip(j as int)[0] == ids[j as int]);
                assert(find_id(ids.skip(j as int), id@) == Option::Some(0int));
            }
            return Option::Some(j);
        }
        proof {
            assert(ids[j as int] == groups@[j as int]@.id);
        }
        j = j + 1;
    }
    proof {
        lemma_find_id_skip(ids, id@, ids.len() as int);
        assert(ids.skip(ids.len() as int).len() == 0);
    }
    Option::None
}

} // verus!
