//! Groups of files: artists, series and families of series.

use vstd::hash_set::StringHashSet;
use vstd::prelude::*;

use crate::order::{
    ascending, equal_keys_keep_their_order, insert_key, is_sorted_set, key_is,
    lemma_insert_keeps_order, lemma_place_splits, place, place_of, sorting_orders_and_keeps,
    stable_sorted,
};
use crate::text::{contains_text, has_text, opt_text, texts};
use crate::unicode::lowercase;

verus! {

// ---------------------------------------------------------------------------
// Groups
// ---------------------------------------------------------------------------

/// A group of files under one name, with the groups inside it.
pub struct MediaGroup {
    pub key: String,
    pub name: String,
    pub subtitle: Option<String>,
    pub family_name: Option<String>,
    pub file_count: usize,
    pub total_size: i64,
    pub source_keys: Vec<String>,
    pub resource_keys: Vec<String>,
    pub child_groups: Vec<MediaGroup>,
}

/// A group as a value.
pub struct GroupModel {
    pub key: Seq<char>,
    pub name: Seq<char>,
    pub subtitle: Option<Seq<char>>,
    pub family_name: Option<Seq<char>>,
    pub file_count: nat,
    pub total_size: i64,
    pub source_keys: Seq<Seq<char>>,
    pub resource_keys: Seq<Seq<char>>,
    pub child_groups: Seq<GroupModel>,
}

impl MediaGroup {
    pub open spec fn model(self) -> GroupModel
        decreases self,
    {
        GroupModel {
            key: self.key@,
            name: self.name@,
            subtitle: opt_text(self.subtitle),
            family_name: opt_text(self.family_name),
            file_count: self.file_count as nat,
            total_size: self.total_size,
            source_keys: texts(self.source_keys@),
            resource_keys: texts(self.resource_keys@),
            child_groups: group_models(self.child_groups@),
        }
    }
}

/// A list of groups as values.
pub open spec fn group_models(groups: Seq<MediaGroup>) -> Seq<GroupModel>
    decreases groups,
{
    if groups.len() == 0 {
        Seq::empty()
    } else {
        group_models(groups.drop_last()).push(groups.last().model())
    }
}

/// A list of groups has the values of its groups, one by one.
pub proof fn lemma_group_models(groups: Seq<MediaGroup>)
    ensures
        group_models(groups).len() == groups.len(),
        forall|i: int|
            0 <= i < groups.len() ==> #[trigger] group_models(groups)[i] == groups[i].model(),
    decreases groups.len(),
{
    if groups.len() > 0 {
        lemma_group_models(groups.drop_last());
        assert forall|i: int| 0 <= i < groups.len() implies #[trigger] group_models(groups)[i]
            == groups[i].model() by {
            if i < groups.len() - 1 {
                assert(group_models(groups.drop_last())[i] == groups.drop_last()[i].model());
            }
        }
    }
}

proof fn lemma_models_push(groups: Seq<MediaGroup>, group: MediaGroup)
    ensures
        group_models(groups.push(group)) == group_models(groups).push(group.model()),
{
    assert(groups.push(group).drop_last() =~= groups);
}

proof fn lemma_models_insert(groups: Seq<MediaGroup>, at: int, group: MediaGroup)
    requires
        0 <= at <= groups.len(),
    ensures
        group_models(groups.insert(at, group)) == group_models(groups).insert(at, group.model()),
{
    let after = groups.insert(at, group);
    lemma_group_models(groups);
    lemma_group_models(after);
    assert forall|i: int| 0 <= i < after.len() implies #[trigger] group_models(after)[i]
        == group_models(groups).insert(at, group.model())[i] by {
        if i < at {
            assert(group_models(groups)[i] == groups[i].model());
        } else if i > at {
            assert(group_models(groups)[i - 1] == groups[i - 1].model());
        }
    }
    assert(group_models(after) =~= group_models(groups).insert(at, group.model()));
}

// ---------------------------------------------------------------------------
// Sorting
// ---------------------------------------------------------------------------

/// The names of groups in lower case: what they are sorted by.
pub open spec fn sort_keys(groups: Seq<GroupModel>) -> Seq<Seq<char>> {
    groups.map_values(|g: GroupModel| lowercase(g.name))
}

/// Groups in the order of their names in lower case, at every level; groups
/// with the same name in the order in which they came.
pub open spec fn sorted_groups(groups: Seq<GroupModel>) -> Seq<GroupModel>
    decreases groups,
{
    if groups.len() == 0 {
        Seq::empty()
    } else {
        let before = sorted_groups(groups.drop_last());
        let last = groups.last();
        let group = GroupModel { child_groups: sorted_groups(last.child_groups), ..last };
        before.insert(place(sort_keys(before), lowercase(group.name)), group)
    }
}

/// Sorts groups by name at every level.
pub fn sort_groups(groups: &mut Vec<MediaGroup>)
    ensures
        group_models(final(groups)@) == sorted_groups(group_models(old(groups)@)),
    decreases old(groups)@,
{
    let mut taken: Vec<MediaGroup> = Vec::new();
    std::mem::swap(groups, &mut taken);
    let ghost all = group_models(taken@);
    let mut sorted: Vec<MediaGroup> = Vec::new();
    let mut keys: Vec<String> = Vec::new();
    proof {
        lemma_group_models(taken@);
        assert(texts(keys@) =~= sort_keys(group_models(sorted@)));
    }
    for group in it: taken
        invariant
            it.seq() == taken@,
            taken@ == old(groups)@,
            all == group_models(taken@),
            all.len() == taken@.len(),
            forall|i: int| 0 <= i < taken@.len() ==> #[trigger] all[i] == taken@[i].model(),
            group_models(sorted@) == sorted_groups(all.take(it.index() as int)),
            texts(keys@) == sort_keys(group_models(sorted@)),
            ascending(texts(keys@)),
            keys@.len() == sorted@.len(),
    {
        let ghost n = it.index() as int;
        let ghost model = group.model();
        proof {
            assert(all.take(n + 1).drop_last() =~= all.take(n));
            assert(all[n] == taken@[n].model());
            assert(group == taken@[n]);
        }
        let MediaGroup {
            key,
            name,
            subtitle,
            family_name,
            file_count,
            total_size,
            source_keys,
            resource_keys,
            child_groups,
        } = group;
        let mut child_groups = child_groups;
        sort_groups(&mut child_groups);
        let sort_key = name.as_str().to_lowercase();
        let at = place_of(&keys, sort_key.as_str());
        let group = MediaGroup {
            key,
            name,
            subtitle,
            family_name,
            file_count,
            total_size,
            source_keys,
            resource_keys,
            child_groups,
        };
        let ghost before = sorted@;
        let ghost before_keys = texts(keys@);
        let ghost added = group;
        let ghost added_key = sort_key@;
        proof {
            lemma_group_models(before);
            lemma_models_insert(before, at as int, added);
            lemma_insert_keeps_order(before_keys, added_key);
        }
        sorted.insert(at, group);
        keys.insert(at, sort_key);
        proof {
            assert(texts(keys@) =~= before_keys.insert(at as int, added_key));
            assert(sort_keys(group_models(sorted@)) =~= before_keys.insert(at as int, added_key));
        }
    }
    proof {
        assert(all.take(taken@.len() as int) =~= all);
    }
    *groups = sorted;
}

/// Groups that stand in the order of their names in lower case, at every level.
pub open spec fn in_order(groups: Seq<GroupModel>) -> bool
    decreases groups,
{
    ascending(sort_keys(groups)) && forall|i: int|
        0 <= i < groups.len() ==> in_order((#[trigger] groups[i]).child_groups)
}

/// The keys of groups.
pub open spec fn keys_of_groups(groups: Seq<GroupModel>) -> Seq<Seq<char>> {
    groups.map_values(|g: GroupModel| g.key)
}

/// Sorting orders the groups at every level, and the keys stay the same ones.
pub proof fn sorting_groups_orders_every_level(groups: Seq<GroupModel>)
    ensures
        in_order(sorted_groups(groups)),
        sorted_groups(groups).len() == groups.len(),
        keys_of_groups(sorted_groups(groups)).to_multiset() == keys_of_groups(groups).to_multiset(),
    decreases groups,
{
    let sorted = sorted_groups(groups);
    if groups.len() == 0 {
        assert(keys_of_groups(sorted) =~= keys_of_groups(groups));
    } else {
        let before = sorted_groups(groups.drop_last());
        let last = groups.last();
        sorting_groups_orders_every_level(groups.drop_last());
        sorting_groups_orders_every_level(last.child_groups);
        let group = GroupModel { child_groups: sorted_groups(last.child_groups), ..last };
        let keys = sort_keys(before);
        let p = place(keys, lowercase(group.name));
        lemma_place_splits(keys, lowercase(group.name));
        lemma_insert_keeps_order(keys, lowercase(group.name));
        assert(sort_keys(sorted) =~= keys.insert(p, lowercase(group.name)));
        assert forall|i: int| 0 <= i < sorted.len() implies in_order(
            (#[trigger] sorted[i]).child_groups,
        ) by {
            if i < p {
                assert(sorted[i] == before[i]);
            } else if i > p {
                assert(sorted[i] == before[i - 1]);
            }
        }
        let all = keys_of_groups(sorted);
        assert(all.remove(p) =~= keys_of_groups(before));
        assert(all[p] == group.key);
        assert(all.contains(group.key));
        vstd::seq_lib::to_multiset_remove(all, p);
        vstd::seq_lib::to_multiset_contains(all, group.key);
        assert(all.to_multiset() =~= keys_of_groups(before).to_multiset().insert(group.key));
        assert(keys_of_groups(groups) =~= keys_of_groups(groups.drop_last()).push(group.key));
        vstd::seq_lib::to_multiset_build(keys_of_groups(groups.drop_last()), group.key);
    }
}

/// What groups are sorted by: their names in lower case.
pub open spec fn group_sort_key() -> spec_fn(GroupModel) -> Seq<char> {
    |g: GroupModel| lowercase(g.name)
}

/// A group whose inner groups are sorted.
pub open spec fn sorted_within(group: GroupModel) -> GroupModel {
    GroupModel { child_groups: sorted_groups(group.child_groups), ..group }
}

/// Groups whose inner groups are sorted, in the order in which they came.
pub open spec fn all_sorted_within(groups: Seq<GroupModel>) -> Seq<GroupModel> {
    groups.map_values(|g: GroupModel| sorted_within(g))
}

proof fn lemma_sorted_groups(groups: Seq<GroupModel>)
    ensures
        sorted_groups(groups) == stable_sorted(all_sorted_within(groups), group_sort_key()),
    decreases groups.len(),
{
    if groups.len() > 0 {
        lemma_sorted_groups(groups.drop_last());
        let before = sorted_groups(groups.drop_last());
        assert(all_sorted_within(groups).drop_last() =~= all_sorted_within(groups.drop_last()));
        assert(sort_keys(before) =~= before.map_values(group_sort_key()));
    }
}

/// Sorting keeps whole groups: those that are there afterwards are those that
/// were there, each as often, with the groups inside it sorted in the same way
/// and nothing else changed. Groups with the same name in lower case keep their
/// order.
pub proof fn sorting_groups_keeps_whole_groups(groups: Seq<GroupModel>, name: Seq<char>)
    ensures
        sorted_groups(groups).to_multiset() == all_sorted_within(groups).to_multiset(),
        sorted_groups(groups).filter(key_is(group_sort_key(), name)) == all_sorted_within(
            groups,
        ).filter(key_is(group_sort_key(), name)),
{
    lemma_sorted_groups(groups);
    sorting_orders_and_keeps(all_sorted_within(groups), group_sort_key());
    equal_keys_keep_their_order(all_sorted_within(groups), group_sort_key(), name);
}

// ---------------------------------------------------------------------------
// Searching
// ---------------------------------------------------------------------------

/// A search is found in one of the keys.
pub open spec fn found_in_keys(keys: Seq<Seq<char>>, search: Seq<char>) -> bool {
    exists|i: int| 0 <= i < keys.len() && has_text(lowercase(#[trigger] keys[i]), search)
}

/// A group is found by a search: by its name, its subtitle, one of its source
/// keys or a file in it, or because a group in it is found.
pub open spec fn group_found(
    group: GroupModel,
    search: Seq<char>,
    matched_groups: Set<Seq<char>>,
) -> bool {
    ||| has_text(lowercase(group.name), search)
    ||| group.subtitle is Some && has_text(lowercase(group.subtitle->0), search)
    ||| found_in_keys(group.source_keys, search)
    ||| matched_groups.contains(group.key)
    ||| group.child_groups.len() > 0
}

/// The groups that a search finds, at every level.
pub open spec fn found_groups(
    groups: Seq<GroupModel>,
    search: Seq<char>,
    matched_groups: Set<Seq<char>>,
) -> Seq<GroupModel>
    decreases groups,
{
    if groups.len() == 0 {
        Seq::empty()
    } else {
        let before = found_groups(groups.drop_last(), search, matched_groups);
        let last = groups.last();
        let group = GroupModel {
            child_groups: found_groups(last.child_groups, search, matched_groups),
            ..last
        };
        if group_found(group, search, matched_groups) {
            before.push(group)
        } else {
            before
        }
    }
}

fn key_found(keys: &Vec<String>, search: &str) -> (r: bool)
    ensures
        r == found_in_keys(texts(keys@), search@),
{
    let ghost all = texts(keys@);
    let mut i: usize = 0;
    while i < keys.len()
        invariant
            i <= keys@.len(),
            all == texts(keys@),
            forall|j: int| 0 <= j < i ==> !has_text(lowercase(#[trigger] all[j]), search@),
        decreases keys@.len() - i,
    {
        proof {
            assert(all[i as int] == keys@[i as int]@);
        }
        let lower = keys[i].as_str().to_lowercase();
        if contains_text(lower.as_str(), search) {
            return true;
        }
        i += 1;
    }
    false
}

/// Whether a group is found by a search.
pub fn group_matches(group: &MediaGroup, search: &str, matched_groups: &StringHashSet) -> (r: bool)
    ensures
        r == group_found(group.model(), search@, matched_groups@),
{
    proof {
        lemma_group_models(group.child_groups@);
    }
    let name = group.name.as_str().to_lowercase();
    let in_subtitle = match &group.subtitle {
        Some(subtitle) => {
            let lower = subtitle.as_str().to_lowercase();
            contains_text(lower.as_str(), search)
        },
        None => false,
    };
    let in_key = key_found(&group.source_keys, search);
    let is_matched = matched_groups.contains(group.key.as_str());
    contains_text(name.as_str(), search) || in_subtitle || in_key || is_matched
        || group.child_groups.len() > 0
}

/// Leaves the groups that a search finds, at every level.
pub fn retain_matching_groups(
    groups: &mut Vec<MediaGroup>,
    search: &str,
    matched_groups: &StringHashSet,
)
    ensures
        group_models(final(groups)@) == found_groups(
            group_models(old(groups)@),
            search@,
            matched_groups@,
        ),
    decreases old(groups)@,
{
    let mut taken: Vec<MediaGroup> = Vec::new();
    std::mem::swap(groups, &mut taken);
    let ghost all = group_models(taken@);
    let mut kept: Vec<MediaGroup> = Vec::new();
    proof {
        lemma_group_models(taken@);
    }
    for group in it: taken
        invariant
            it.seq() == taken@,
            taken@ == old(groups)@,
            all == group_models(taken@),
            all.len() == taken@.len(),
            forall|i: int| 0 <= i < taken@.len() ==> #[trigger] all[i] == taken@[i].model(),
            group_models(kept@) == found_groups(
                all.take(it.index() as int),
                search@,
                matched_groups@,
            ),
    {
        let ghost n = it.index() as int;
        proof {
            assert(all.take(n + 1).drop_last() =~= all.take(n));
            assert(all[n] == taken@[n].model());
            assert(group == taken@[n]);
        }
        let MediaGroup {
            key,
            name,
            subtitle,
            family_name,
            file_count,
            total_size,
            source_keys,
            resource_keys,
            child_groups,
        } = group;
        let mut child_groups = child_groups;
        retain_matching_groups(&mut child_groups, search, matched_groups);
        let group = MediaGroup {
            key,
            name,
            subtitle,
            family_name,
            file_count,
            total_size,
            source_keys,
            resource_keys,
            child_groups,
        };
        if group_matches(&group, search, matched_groups) {
            proof {
                lemma_models_push(kept@, group);
            }
            kept.push(group);
        }
    }
    proof {
        assert(all.take(taken@.len() as int) =~= all);
    }
    *groups = kept;
}

// ---------------------------------------------------------------------------
// Building
// ---------------------------------------------------------------------------

/// A group that files are being added to. Its keys are sorted sets.
pub struct MediaGroupBuilder {
    key: String,
    name: String,
    subtitle: Option<String>,
    family_name: Option<String>,
    file_count: usize,
    total_size: i64,
    source_keys: Vec<String>,
    resource_keys: Vec<String>,
    child_groups: Vec<MediaGroup>,
}

/// A sorted set of keys with one key more.
pub open spec fn with_key(keys: Seq<Seq<char>>, key: Seq<char>) -> Seq<Seq<char>> {
    if keys.contains(key) {
        keys
    } else {
        keys.insert(place(keys, key), key)
    }
}

/// A group with one file more. The subtitle stays while all files agree on it;
/// sizes are added as 64-bit integers, wrapping around.
pub open spec fn with_file(
    group: GroupModel,
    file_size: i64,
    source_key: Seq<char>,
    resource_key: Seq<char>,
    subtitle: Option<Seq<char>>,
) -> GroupModel {
    GroupModel {
        subtitle: if group.file_count > 0 && group.subtitle != subtitle {
            None
        } else {
            group.subtitle
        },
        file_count: group.file_count + 1,
        total_size: group.total_size.wrapping_add(file_size),
        source_keys: with_key(group.source_keys, source_key),
        resource_keys: with_key(group.resource_keys, resource_key),
        ..group
    }
}

fn same_opt_text(a: &Option<String>, b: &Option<String>) -> (r: bool)
    ensures
        r == (opt_text(*a) == opt_text(*b)),
{
    match (a, b) {
        (Some(a), Some(b)) => *a == *b,
        (None, None) => true,
        _ => false,
    }
}

impl MediaGroupBuilder {
    /// What has been put into the group so far.
    pub closed spec fn model(self) -> GroupModel {
        GroupModel {
            key: self.key@,
            name: self.name@,
            subtitle: opt_text(self.subtitle),
            family_name: opt_text(self.family_name),
            file_count: self.file_count as nat,
            total_size: self.total_size,
            source_keys: texts(self.source_keys@),
            resource_keys: texts(self.resource_keys@),
            child_groups: group_models(self.child_groups@),
        }
    }

    /// The keys of the group are sorted sets: none is there twice.
    pub closed spec fn wf(self) -> bool {
        is_sorted_set(texts(self.source_keys@)) && is_sorted_set(texts(self.resource_keys@))
    }

    /// A group without files.
    pub fn new(
        key: String,
        name: String,
        subtitle: Option<String>,
        family_name: Option<String>,
    ) -> (r: Self)
        ensures
            r.wf(),
            r.model() == (GroupModel {
                key: key@,
                name: name@,
                subtitle: opt_text(subtitle),
                family_name: opt_text(family_name),
                file_count: 0,
                total_size: 0,
                source_keys: Seq::empty(),
                resource_keys: Seq::empty(),
                child_groups: Seq::empty(),
            }),
    {
        let builder = MediaGroupBuilder {
            key,
            name,
            subtitle,
            family_name,
            file_count: 0,
            total_size: 0,
            source_keys: Vec::new(),
            resource_keys: Vec::new(),
            child_groups: Vec::new(),
        };
        proof {
            assert(texts(builder.source_keys@) =~= Seq::<Seq<char>>::empty());
            assert(texts(builder.resource_keys@) =~= Seq::<Seq<char>>::empty());
        }
        builder
    }

    /// Adds a file to the group.
    pub fn add_file(
        &mut self,
        file_size: i64,
        source_key: String,
        resource_key: String,
        subtitle: Option<String>,
    )
        requires
            old(self).wf(),
            old(self).model().file_count < usize::MAX,
        ensures
            final(self).wf(),
            final(self).model() == with_file(
                old(self).model(),
                file_size,
                source_key@,
                resource_key@,
                opt_text(subtitle),
            ),
    {
        if self.file_count > 0 && !same_opt_text(&self.subtitle, &subtitle) {
            self.subtitle = None;
        }
        self.file_count += 1;
        self.total_size = self.total_size.wrapping_add(file_size);
        insert_key(&mut self.source_keys, source_key);
        insert_key(&mut self.resource_keys, resource_key);
    }

    /// Puts groups inside the group, in place of those that it held.
    pub fn hold_groups(&mut self, child_groups: Vec<MediaGroup>)
        requires
            old(self).wf(),
        ensures
            final(self).wf(),
            final(self).model() == (GroupModel {
                child_groups: group_models(child_groups@),
                ..old(self).model()
            }),
    {
        self.child_groups = child_groups;
    }

    /// The group of the files that were added: its keys in ascending order, each
    /// once, and the groups inside it sorted.
    pub fn finish(self) -> (r: MediaGroup)
        requires
            self.wf(),
        ensures
            r.model() == sorted_within(self.model()),
            is_sorted_set(r.model().source_keys),
            is_sorted_set(r.model().resource_keys),
            in_order(r.model().child_groups),
    {
        let mut child_groups = self.child_groups;
        proof {
            sorting_groups_orders_every_level(group_models(child_groups@));
        }
        sort_groups(&mut child_groups);
        MediaGroup {
            key: self.key,
            name: self.name,
            subtitle: self.subtitle,
            family_name: self.family_name,
            file_count: self.file_count,
            total_size: self.total_size,
            source_keys: self.source_keys,
            resource_keys: self.resource_keys,
            child_groups,
        }
    }
}

} // verus!
