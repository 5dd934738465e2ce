//! The grouping of files under the keys of their groups.

use vstd::hash_map::StringHashMap;
use vstd::prelude::*;

use crate::groups::{
    group_models, sorted_groups, with_file, GroupModel, MediaGroup, MediaGroupBuilder,
};
use crate::order::sorted_set;
use crate::text::opt_text;

verus! {

// ---------------------------------------------------------------------------
// What a file adds to groups
// ---------------------------------------------------------------------------

/// What a file adds to a group.
pub struct GroupEntry {
    pub key: String,
    pub name: String,
    pub subtitle: Option<String>,
    pub family_name: Option<String>,
    pub file_size: i64,
    pub source_key: String,
    pub resource_key: String,
}

/// What a file adds to a group, as a value.
pub struct EntryModel {
    pub key: Seq<char>,
    pub name: Seq<char>,
    pub subtitle: Option<Seq<char>>,
    pub family_name: Option<Seq<char>>,
    pub file_size: i64,
    pub source_key: Seq<char>,
    pub resource_key: Seq<char>,
}

impl GroupEntry {
    pub open spec fn model(self) -> EntryModel {
        EntryModel {
            key: self.key@,
            name: self.name@,
            subtitle: opt_text(self.subtitle),
            family_name: opt_text(self.family_name),
            file_size: self.file_size,
            source_key: self.source_key@,
            resource_key: self.resource_key@,
        }
    }
}

/// Where a file belongs: to a group, and perhaps to a group inside that one.
pub struct Placement {
    pub group: GroupEntry,
    pub child: Option<GroupEntry>,
}

/// Where a file belongs, as a value.
pub struct PlacementModel {
    pub group: EntryModel,
    pub child: Option<EntryModel>,
}

impl Placement {
    pub open spec fn model(self) -> PlacementModel {
        PlacementModel {
            group: self.group.model(),
            child: match self.child {
                Some(child) => Some(child.model()),
                None => None,
            },
        }
    }
}

/// Placements as values.
pub open spec fn placement_models(placements: Seq<Placement>) -> Seq<PlacementModel> {
    placements.map_values(|p: Placement| p.model())
}

// ---------------------------------------------------------------------------
// Distinct keys
// ---------------------------------------------------------------------------

/// The keys of a list, each where it first occurs.
pub open spec fn distinct(keys: Seq<Seq<char>>) -> Seq<Seq<char>>
    decreases keys.len(),
{
    if keys.len() == 0 {
        Seq::empty()
    } else {
        let before = distinct(keys.drop_last());
        if before.contains(keys.last()) {
            before
        } else {
            before.push(keys.last())
        }
    }
}

/// The distinct keys of a list are its keys, without repetition.
pub proof fn distinct_keys_are_the_keys(keys: Seq<Seq<char>>)
    ensures
        distinct(keys).no_duplicates(),
        forall|k: Seq<char>| #[trigger] distinct(keys).contains(k) <==> keys.contains(k),
    decreases keys.len(),
{
    if keys.len() > 0 {
        let before = distinct(keys.drop_last());
        let now = distinct(keys);
        let last = keys.last();
        distinct_keys_are_the_keys(keys.drop_last());
        assert(keys =~= keys.drop_last().push(last));
        assert forall|k: Seq<char>| #[trigger] now.contains(k) <==> keys.contains(k) by {
            assert(before.contains(k) <==> keys.drop_last().contains(k));
            if keys.drop_last().contains(k) {
                let i = choose|i: int| 0 <= i < keys.drop_last().len() && keys.drop_last()[i] == k;
                assert(keys[i] == k);
                let j = choose|j: int| 0 <= j < before.len() && before[j] == k;
                assert(now[j] == k);
            }
            if k == last {
                assert(keys[keys.len() - 1] == k);
                if !before.contains(last) {
                    assert(now[before.len() as int] == k);
                }
            }
            if now.contains(k) {
                let j = choose|j: int| 0 <= j < now.len() && now[j] == k;
                if j < before.len() {
                    assert(before[j] == k);
                    assert(before.contains(k));
                }
            }
            if keys.contains(k) {
                let i = choose|i: int| 0 <= i < keys.len() && keys[i] == k;
                if i < keys.len() - 1 {
                    assert(keys.drop_last()[i] == k);
                }
            }
        }
        assert forall|i: int, j: int| 0 <= i < now.len() && 0 <= j < now.len() && i != j implies now[i]
            != now[j] by {
            if !before.contains(last) {
                if i < before.len() {
                    assert(before.contains(before[i]));
                }
                if j < before.len() {
                    assert(before.contains(before[j]));
                }
            }
        }
    }
}

// ---------------------------------------------------------------------------
// Groups of placements
// ---------------------------------------------------------------------------

/// The keys of the groups that files are placed in.
pub open spec fn group_keys(placements: Seq<PlacementModel>) -> Seq<Seq<char>> {
    placements.map_values(|p: PlacementModel| p.group.key)
}

/// The placements in the group of a key.
pub open spec fn placed_in(placements: Seq<PlacementModel>, key: Seq<char>) -> Seq<PlacementModel> {
    placements.filter(|p: PlacementModel| p.group.key == key)
}

/// What the files add to their groups.
pub open spec fn entries(placements: Seq<PlacementModel>) -> Seq<EntryModel> {
    placements.map_values(|p: PlacementModel| p.group)
}

/// The placements in the groups inside a group.
pub open spec fn child_placements(placements: Seq<PlacementModel>) -> Seq<PlacementModel>
    decreases placements.len(),
{
    if placements.len() == 0 {
        Seq::empty()
    } else {
        let before = child_placements(placements.drop_last());
        match placements.last().child {
            Some(child) => before.push(PlacementModel { group: child, child: None }),
            None => before,
        }
    }
}

/// The sum of the sizes of files, as 64-bit integers that wrap around.
pub open spec fn total_size(files: Seq<EntryModel>) -> i64
    decreases files.len(),
{
    if files.len() == 0 {
        0
    } else {
        total_size(files.drop_last()).wrapping_add(files.last().file_size)
    }
}

/// The subtitle that all files agree on.
pub open spec fn common_subtitle(files: Seq<EntryModel>) -> Option<Seq<char>> {
    if forall|i: int| 0 <= i < files.len() ==> (#[trigger] files[i]).subtitle == files[0].subtitle {
        files[0].subtitle
    } else {
        None
    }
}

/// The group of files: named by the first of them, with the number and the
/// size of all, with their keys sorted, and with groups inside it.
pub open spec fn group_of(files: Seq<EntryModel>, children: Seq<GroupModel>) -> GroupModel {
    GroupModel {
        key: files[0].key,
        name: files[0].name,
        subtitle: common_subtitle(files),
        family_name: files[0].family_name,
        file_count: files.len(),
        total_size: total_size(files),
        source_keys: sorted_set(files.map_values(|e: EntryModel| e.source_key)),
        resource_keys: sorted_set(files.map_values(|e: EntryModel| e.resource_key)),
        child_groups: sorted_groups(children),
    }
}

/// The groups of placements, without groups inside them.
pub open spec fn flat_groups(placements: Seq<PlacementModel>) -> Seq<GroupModel> {
    distinct(group_keys(placements)).map_values(
        |key: Seq<char>| group_of(entries(placed_in(placements, key)), Seq::empty()),
    )
}

/// The groups of placements: one for each key, in the order in which the keys
/// first occur.
pub open spec fn groups_of(placements: Seq<PlacementModel>) -> Seq<GroupModel> {
    distinct(group_keys(placements)).map_values(
        |key: Seq<char>|
            group_of(
                entries(placed_in(placements, key)),
                flat_groups(child_placements(placed_in(placements, key))),
            ),
    )
}

proof fn lemma_placed_in_push(placements: Seq<PlacementModel>, p: PlacementModel, key: Seq<char>)
    ensures
        placed_in(placements.push(p), key) == (if p.group.key == key {
            placed_in(placements, key).push(p)
        } else {
            placed_in(placements, key)
        }),
{
    reveal(Seq::filter);
    assert(placements.push(p).drop_last() =~= placements);
}

/// A key that does not occur has no placements; one that occurs has some, all
/// with this key.
pub proof fn lemma_placed_in(placements: Seq<PlacementModel>, key: Seq<char>)
    ensures
        group_keys(placements).contains(key) <==> placed_in(placements, key).len() > 0,
        forall|i: int|
            0 <= i < placed_in(placements, key).len() ==> (#[trigger] placed_in(
                placements,
                key,
            )[i]).group.key == key,
    decreases placements.len(),
{
    reveal(Seq::filter);
    let keys = group_keys(placements);
    if placements.len() > 0 {
        let before = placements.drop_last();
        lemma_placed_in(before, key);
        assert(keys =~= group_keys(before).push(placements.last().group.key));
        if group_keys(before).contains(key) {
            let i = choose|i: int| 0 <= i < group_keys(before).len() && group_keys(before)[i] == key;
            assert(keys[i] == key);
        }
        if keys.contains(key) {
            let i = choose|i: int| 0 <= i < keys.len() && keys[i] == key;
            if i < before.len() {
                assert(group_keys(before)[i] == key);
            }
        }
        if placements.last().group.key == key {
            assert(keys[placements.len() - 1] == key);
        }
    }
}

/// The buckets hold, key by key, the placements of the groups.
spec fn parted(buckets: Seq<Vec<Placement>>, placements: Seq<PlacementModel>) -> bool {
    let keys = distinct(group_keys(placements));
    &&& buckets.len() == keys.len()
    &&& forall|i: int|
        0 <= i < buckets.len() ==> placement_models((#[trigger] buckets[i])@) == placed_in(
            placements,
            keys[i],
        )
}

spec fn indexed(index: Map<Seq<char>, usize>, keys: Seq<Seq<char>>) -> bool {
    &&& forall|k: Seq<char>| #[trigger] index.contains_key(k) <==> keys.contains(k)
    &&& forall|k: Seq<char>| #[trigger]
        index.contains_key(k) ==> index[k] < keys.len() && keys[index[k] as int] == k
}

proof fn lemma_part(
    before: Seq<Vec<Placement>>,
    after: Seq<Vec<Placement>>,
    placements: Seq<PlacementModel>,
    p: PlacementModel,
    at: int,
)
    requires
        parted(before, placements),
        0 <= at < after.len(),
        ({
            let keys = distinct(group_keys(placements));
            if keys.contains(p.group.key) {
                &&& keys[at] == p.group.key
                &&& after.len() == before.len()
                &&& placement_models(after[at]@) == placement_models(before[at]@).push(p)
            } else {
                &&& at == before.len()
                &&& after.len() == before.len() + 1
                &&& placement_models(after[at]@) == seq![p]
            }
        }),
        forall|i: int| 0 <= i < before.len() && i != at ==> #[trigger] after[i] == before[i],
    ensures
        parted(after, placements.push(p)),
{
    let keys = distinct(group_keys(placements));
    let all = placements.push(p);
    assert(group_keys(all).drop_last() =~= group_keys(placements));
    assert(group_keys(all).last() == p.group.key);
    distinct_keys_are_the_keys(group_keys(placements));
    let now = distinct(group_keys(all));
    assert forall|i: int| 0 <= i < after.len() implies placement_models((#[trigger] after[i])@)
        == placed_in(all, now[i]) by {
        lemma_placed_in_push(placements, p, now[i]);
        if i == at {
            if !keys.contains(p.group.key) {
                lemma_placed_in(placements, p.group.key);
                assert(placed_in(placements, p.group.key) =~= Seq::empty());
                assert(placed_in(all, now[i]) =~= seq![p]);
            }
        } else {
            assert(now[i] == keys[i]);
            assert(keys[i] != p.group.key) by {
                if keys[i] == p.group.key {
                    assert(keys.contains(keys[i]));
                }
            }
        }
    }
}

/// Parts placements by the keys of their groups.
fn part(placements: Vec<Placement>) -> (r: Vec<Vec<Placement>>)
    ensures
        parted(r@, placement_models(placements@)),
{
    let ghost all = placement_models(placements@);
    let mut index: StringHashMap<usize> = StringHashMap::new();
    let mut buckets: Vec<Vec<Placement>> = Vec::new();
    proof {
        assert(group_keys(all.take(0)) =~= Seq::empty());
    }
    for p in it: placements
        invariant
            it.seq() == placements@,
            all == placement_models(placements@),
            parted(buckets@, all.take(it.index() as int)),
            indexed(index@, distinct(group_keys(all.take(it.index() as int)))),
    {
        let ghost n = it.index() as int;
        let ghost seen = all.take(n);
        let ghost keys = distinct(group_keys(seen));
        let ghost model = p.model();
        let ghost before = buckets@;
        let ghost key = p.group.key@;
        proof {
            assert(all.take(n + 1) =~= seen.push(model));
            assert(group_keys(seen.push(model)).drop_last() =~= group_keys(seen));
            assert(group_keys(seen.push(model)).last() == key);
            distinct_keys_are_the_keys(group_keys(seen));
        }
        let found = match index.get(p.group.key.as_str()) {
            Some(at) => Some(*at),
            None => None,
        };
        match found {
            Some(at) => {
                let ghost bucket = buckets@[at as int]@;
                proof {
                    assert(placement_models(bucket.push(p)) =~= placement_models(bucket).push(model));
                }
                buckets[at].push(p);
                proof {
                    lemma_part(before, buckets@, seen, model, at as int);
                }
            },
            None => {
                let at = buckets.len();
                let key_text = p.group.key.clone();
                let ghost one = seq![p];
                let mut bucket: Vec<Placement> = Vec::new();
                bucket.push(p);
                proof {
                    assert(bucket@ =~= one);
                    assert(placement_models(bucket@) =~= seq![model]);
                }
                buckets.push(bucket);
                index.insert(key_text, at);
                proof {
                    lemma_part(before, buckets@, seen, model, at as int);
                    let now = keys.push(key);
                    assert forall|k: Seq<char>| #[trigger] index@.contains_key(k) <==> now.contains(
                        k,
                    ) by {
                        if keys.contains(k) {
                            let i = choose|i: int| 0 <= i < keys.len() && keys[i] == k;
                            assert(now[i] == k);
                        }
                        if now.contains(k) && k != key {
                            let i = choose|i: int| 0 <= i < now.len() && now[i] == k;
                            assert(keys[i] == k);
                        }
                        assert(now[keys.len() as int] == key);
                    }
                }
            },
        }
    }
    proof {
        assert(all.take(placements@.len() as int) =~= all);
    }
    buckets
}

/// What a group holds of its first files.
spec fn gathered(group: GroupModel, files: Seq<EntryModel>, n: int, children: Seq<GroupModel>) -> bool {
    let seen = files.take(n);
    &&& group.key == files[0].key
    &&& group.name == files[0].name
    &&& group.family_name == files[0].family_name
    &&& group.subtitle == (if n == 0 {
        files[0].subtitle
    } else {
        common_subtitle(seen)
    })
    &&& group.file_count == n
    &&& group.total_size == total_size(seen)
    &&& group.source_keys == sorted_set(seen.map_values(|e: EntryModel| e.source_key))
    &&& group.resource_keys == sorted_set(seen.map_values(|e: EntryModel| e.resource_key))
    &&& group.child_groups == children
}

proof fn lemma_gather(
    before: GroupModel,
    files: Seq<EntryModel>,
    n: int,
    children: Seq<GroupModel>,
)
    requires
        0 <= n < files.len(),
        gathered(before, files, n, children),
    ensures
        gathered(
            with_file(
                before,
                files[n].file_size,
                files[n].source_key,
                files[n].resource_key,
                files[n].subtitle,
            ),
            files,
            n + 1,
            children,
        ),
{
    let seen = files.take(n);
    let now = files.take(n + 1);
    let source = |e: EntryModel| e.source_key;
    let resource = |e: EntryModel| e.resource_key;
    assert(now.drop_last() =~= seen);
    assert(now.map_values(source).drop_last() =~= seen.map_values(source));
    assert(now.map_values(resource).drop_last() =~= seen.map_values(resource));
    assert(now.last() == files[n]);
    if n > 0 {
        assert(seen[0] == files[0] && now[0] == files[0]);
        if forall|i: int| 0 <= i < now.len() ==> (#[trigger] now[i]).subtitle == now[0].subtitle {
            assert forall|i: int| 0 <= i < seen.len() implies (#[trigger] seen[i]).subtitle
                == seen[0].subtitle by {
                assert(seen[i] == now[i]);
            }
            assert(now[n].subtitle == now[0].subtitle);
        } else if forall|i: int|
            0 <= i < seen.len() ==> (#[trigger] seen[i]).subtitle == seen[0].subtitle {
            assert forall|i: int|
                0 <= i < now.len() && files[n].subtitle
                    == files[0].subtitle implies (#[trigger] now[i]).subtitle == now[0].subtitle by {
                if i < n {
                    assert(seen[i] == now[i]);
                }
            }
        }
    } else {
        assert(now[0] == files[0]);
        assert(common_subtitle(now) == files[0].subtitle);
    }
}

/// The group of the placements of one key.
fn summarize(bucket: Vec<Placement>, children: Vec<MediaGroup>) -> (r: MediaGroup)
    requires
        bucket@.len() > 0,
    ensures
        r.model() == group_of(entries(placement_models(bucket@)), group_models(children@)),
{
    let ghost files = entries(placement_models(bucket@));
    let ghost child_models = group_models(children@);
    let size = bucket.len();
    let mut builder = MediaGroupBuilder::new(
        bucket[0].group.key.clone(),
        bucket[0].group.name.clone(),
        bucket[0].group.subtitle.clone(),
        bucket[0].group.family_name.clone(),
    );
    builder.hold_groups(children);
    proof {
        assert(files[0] == bucket@[0].group.model());
        assert(files.take(0) =~= Seq::empty());
        assert(files.take(0).map_values(|e: EntryModel| e.source_key) =~= Seq::empty());
        assert(files.take(0).map_values(|e: EntryModel| e.resource_key) =~= Seq::empty());
    }
    for p in it: bucket
        invariant
            it.seq() == bucket@,
            files == entries(placement_models(bucket@)),
            gathered(builder.model(), files, it.index() as int, child_models),
            builder.wf(),
            builder.model().file_count == it.index(),
            bucket@.len() == size,
    {
        let ghost n = it.index() as int;
        proof {
            assert(files[n] == p.group.model());
            lemma_gather(builder.model(), files, n, child_models);
        }
        let GroupEntry { key, name, subtitle, family_name, file_size, source_key, resource_key } =
            p.group;
        builder.add_file(file_size, source_key, resource_key, subtitle);
    }
    proof {
        assert(files.take(bucket@.len() as int) =~= files);
    }
    builder.finish()
}

/// The groups of placements, without groups inside them.
fn group_flat(placements: Vec<Placement>) -> (r: Vec<MediaGroup>)
    ensures
        group_models(r@) == flat_groups(placement_models(placements@)),
{
    let ghost all = placement_models(placements@);
    let ghost keys = distinct(group_keys(all));
    let buckets = part(placements);
    let mut groups: Vec<MediaGroup> = Vec::new();
    for bucket in it: buckets
        invariant
            it.seq() == buckets@,
            keys == distinct(group_keys(all)),
            parted(buckets@, all),
            group_models(groups@) == flat_groups(all).take(it.index() as int),
    {
        let ghost n = it.index() as int;
        let ghost before = groups@;
        proof {
            assert(placement_models(bucket@) == placed_in(all, keys[n]));
            distinct_keys_are_the_keys(group_keys(all));
            assert(keys.contains(keys[n]));
            lemma_placed_in(all, keys[n]);
            assert(bucket@.len() == placement_models(bucket@).len());
        }
        let group = summarize(bucket, Vec::new());
        let ghost added = group;
        groups.push(group);
        proof {
            assert(groups@.drop_last() =~= before);
            assert(added.model() == flat_groups(all)[n]);
            assert(flat_groups(all).take(n + 1) =~= flat_groups(all).take(n).push(
                flat_groups(all)[n],
            ));
        }
    }
    proof {
        assert(flat_groups(all).take(keys.len() as int) =~= flat_groups(all));
    }
    groups
}

/// The placements in the groups inside a group.
fn children_of(placements: &Vec<Placement>) -> (r: Vec<Placement>)
    ensures
        placement_models(r@) == child_placements(placement_models(placements@)),
{
    let ghost all = placement_models(placements@);
    let mut children: Vec<Placement> = Vec::new();
    let mut i: usize = 0;
    proof {
        assert(all.take(0) =~= Seq::empty());
        assert(placement_models(children@) =~= Seq::empty());
    }
    while i < placements.len()
        invariant
            i <= placements@.len(),
            all == placement_models(placements@),
            placement_models(children@) == child_placements(all.take(i as int)),
        decreases placements@.len() - i,
    {
        proof {
            assert(all.take(i + 1).drop_last() =~= all.take(i as int));
            assert(all.take(i + 1).last() == placements@[i as int].model());
        }
        match &placements[i].child {
            Some(child) => {
                let group = GroupEntry {
                    key: child.key.clone(),
                    name: child.name.clone(),
                    subtitle: child.subtitle.clone(),
                    family_name: child.family_name.clone(),
                    file_size: child.file_size,
                    source_key: child.source_key.clone(),
                    resource_key: child.resource_key.clone(),
                };
                let ghost before = children@;
                let placement = Placement { group, child: None };
                let ghost added = placement;
                children.push(placement);
                proof {
                    assert(placement_models(children@) =~= placement_models(before).push(
                        added.model(),
                    ));
                }
            },
            None => {},
        }
        i += 1;
    }
    proof {
        assert(all.take(placements@.len() as int) =~= all);
    }
    children
}

/// The groups of placements: one for each key, in the order in which the keys
/// first occur.
pub fn group_placements(placements: Vec<Placement>) -> (r: Vec<MediaGroup>)
    ensures
        group_models(r@) == groups_of(placement_models(placements@)),
{
    let ghost all = placement_models(placements@);
    let ghost keys = distinct(group_keys(all));
    let buckets = part(placements);
    let mut groups: Vec<MediaGroup> = Vec::new();
    for bucket in it: buckets
        invariant
            it.seq() == buckets@,
            keys == distinct(group_keys(all)),
            parted(buckets@, all),
            group_models(groups@) == groups_of(all).take(it.index() as int),
    {
        let ghost n = it.index() as int;
        let ghost before = groups@;
        proof {
            assert(placement_models(bucket@) == placed_in(all, keys[n]));
            distinct_keys_are_the_keys(group_keys(all));
            assert(keys.contains(keys[n]));
            lemma_placed_in(all, keys[n]);
            assert(bucket@.len() == placement_models(bucket@).len());
        }
        let children = group_flat(children_of(&bucket));
        let group = summarize(bucket, children);
        let ghost added = group;
        groups.push(group);
        proof {
            assert(groups@.drop_last() =~= before);
            assert(added.model() == groups_of(all)[n]);
            assert(groups_of(all).take(n + 1) =~= groups_of(all).take(n).push(groups_of(all)[n]));
        }
    }
    proof {
        assert(groups_of(all).take(keys.len() as int) =~= groups_of(all));
    }
    groups
}

// ---------------------------------------------------------------------------
// Laws
// ---------------------------------------------------------------------------

/// The number of files in groups.
pub open spec fn files_in(groups: Seq<GroupModel>) -> nat
    decreases groups.len(),
{
    if groups.len() == 0 {
        0
    } else {
        files_in(groups.drop_last()) + groups.last().file_count
    }
}

spec fn placed_under(placements: Seq<PlacementModel>, keys: Seq<Seq<char>>) -> nat
    decreases keys.len(),
{
    if keys.len() == 0 {
        0
    } else {
        placed_under(placements, keys.drop_last()) + placed_in(placements, keys.last()).len()
    }
}

proof fn lemma_placed_under_push(
    placements: Seq<PlacementModel>,
    p: PlacementModel,
    keys: Seq<Seq<char>>,
)
    requires
        keys.no_duplicates(),
    ensures
        placed_under(placements.push(p), keys) == placed_under(placements, keys) + (
        if keys.contains(p.group.key) {
            1nat
        } else {
            0nat
        }),
    decreases keys.len(),
{
    if keys.len() > 0 {
        let rest = keys.drop_last();
        lemma_placed_under_push(placements, p, rest);
        lemma_placed_in_push(placements, p, keys.last());
        if rest.contains(p.group.key) {
            let i = choose|i: int| 0 <= i < rest.len() && rest[i] == p.group.key;
            assert(keys[i] == p.group.key);
            assert(keys[i] != keys[keys.len() - 1]);
        }
        if keys.contains(p.group.key) && keys.last() != p.group.key {
            let i = choose|i: int| 0 <= i < keys.len() && keys[i] == p.group.key;
            assert(rest[i] == p.group.key);
        }
        if keys.last() == p.group.key {
            assert(keys[keys.len() - 1] == p.group.key);
        }
    }
}

proof fn lemma_placed_under_nothing(keys: Seq<Seq<char>>)
    ensures
        placed_under(Seq::empty(), keys) == 0,
    decreases keys.len(),
{
    if keys.len() > 0 {
        lemma_placed_under_nothing(keys.drop_last());
        reveal(Seq::filter);
    }
}

proof fn lemma_placed_under_all(placements: Seq<PlacementModel>, keys: Seq<Seq<char>>)
    requires
        keys.no_duplicates(),
        forall|i: int| 0 <= i < placements.len() ==> keys.contains(
            (#[trigger] placements[i]).group.key,
        ),
    ensures
        placed_under(placements, keys) == placements.len(),
    decreases placements.len(),
{
    if placements.len() == 0 {
        assert(placements =~= Seq::empty());
        lemma_placed_under_nothing(keys);
    } else {
        let before = placements.drop_last();
        assert forall|i: int| 0 <= i < before.len() implies keys.contains(
            (#[trigger] before[i]).group.key,
        ) by {
            assert(before[i] == placements[i]);
        }
        lemma_placed_under_all(before, keys);
        assert(placements =~= before.push(placements.last()));
        assert(keys.contains(placements[placements.len() - 1].group.key));
        lemma_placed_under_push(before, placements.last(), keys);
    }
}

proof fn lemma_files_in(
    groups: Seq<GroupModel>,
    placements: Seq<PlacementModel>,
    keys: Seq<Seq<char>>,
)
    requires
        groups.len() == keys.len(),
        forall|i: int|
            0 <= i < groups.len() ==> (#[trigger] groups[i]).file_count == placed_in(
                placements,
                keys[i],
            ).len(),
    ensures
        files_in(groups) == placed_under(placements, keys),
    decreases keys.len(),
{
    if keys.len() > 0 {
        lemma_files_in(groups.drop_last(), placements, keys.drop_last());
    }
}

proof fn lemma_keys_cover(placements: Seq<PlacementModel>)
    ensures
        distinct(group_keys(placements)).no_duplicates(),
        forall|i: int|
            0 <= i < placements.len() ==> distinct(group_keys(placements)).contains(
                (#[trigger] placements[i]).group.key,
            ),
{
    let keys = group_keys(placements);
    distinct_keys_are_the_keys(keys);
    assert forall|i: int| 0 <= i < placements.len() implies distinct(keys).contains(
        (#[trigger] placements[i]).group.key,
    ) by {
        assert(keys[i] == placements[i].group.key);
        assert(keys.contains(keys[i]));
    }
}

/// Every file stands in exactly one group: the counts of the groups add up to
/// the number of files.
pub proof fn every_file_is_in_one_group(placements: Seq<PlacementModel>)
    ensures
        files_in(groups_of(placements)) == placements.len(),
{
    let keys = distinct(group_keys(placements));
    lemma_keys_cover(placements);
    lemma_placed_under_all(placements, keys);
    lemma_files_in(groups_of(placements), placements, keys);
}

/// Of the files of a group, each that belongs to a group inside it is counted
/// there once.
pub proof fn every_child_is_counted_once(placements: Seq<PlacementModel>)
    ensures
        files_in(flat_groups(child_placements(placements))) == child_placements(placements).len(),
        child_placements(placements).len() <= placements.len(),
        (forall|i: int| 0 <= i < placements.len() ==> (#[trigger] placements[i]).child is Some)
            ==> child_placements(placements).len() == placements.len(),
{
    let children = child_placements(placements);
    let keys = distinct(group_keys(children));
    lemma_keys_cover(children);
    lemma_placed_under_all(children, keys);
    lemma_files_in(flat_groups(children), children, keys);
    lemma_child_count(placements);
}

proof fn lemma_child_count(placements: Seq<PlacementModel>)
    ensures
        child_placements(placements).len() <= placements.len(),
        (forall|i: int| 0 <= i < placements.len() ==> (#[trigger] placements[i]).child is Some)
            ==> child_placements(placements).len() == placements.len(),
    decreases placements.len(),
{
    if placements.len() > 0 {
        let before = placements.drop_last();
        lemma_child_count(before);
        if forall|i: int| 0 <= i < placements.len() ==> (#[trigger] placements[i]).child is Some {
            assert forall|i: int| 0 <= i < before.len() implies (#[trigger] before[i]).child is Some by {
                assert(before[i] == placements[i]);
            }
            assert(placements[placements.len() - 1].child is Some);
        }
    }
}

/// No two groups have the same key, and every group holds at least one file.
pub proof fn groups_have_distinct_keys(placements: Seq<PlacementModel>)
    ensures
        forall|i: int, j: int|
            0 <= i < j < groups_of(placements).len() ==> (#[trigger] groups_of(placements)[i]).key
                != (#[trigger] groups_of(placements)[j]).key,
        forall|i: int|
            0 <= i < groups_of(placements).len() ==> (#[trigger] groups_of(placements)[i]).file_count
                > 0,
{
    let keys = distinct(group_keys(placements));
    let groups = groups_of(placements);
    distinct_keys_are_the_keys(group_keys(placements));
    assert forall|i: int| 0 <= i < groups.len() implies (#[trigger] groups[i]).key == keys[i]
        && groups[i].file_count > 0 by {
        assert(keys.contains(keys[i]));
        lemma_placed_in(placements, keys[i]);
        let placed = placed_in(placements, keys[i]);
        assert(placed[0].group.key == keys[i]);
        assert(entries(placed)[0] == placed[0].group);
    }
}

/// The sum of the sizes of files.
pub open spec fn size_sum(files: Seq<EntryModel>) -> int
    decreases files.len(),
{
    if files.len() == 0 {
        0
    } else {
        size_sum(files.drop_last()) + files.last().file_size
    }
}

proof fn lemma_size_wraps(files: Seq<EntryModel>) -> (k: int)
    ensures
        total_size(files) == size_sum(files) + k * 0x1_0000_0000_0000_0000,
    decreases files.len(),
{
    if files.len() == 0 {
        0
    } else {
        let k = lemma_size_wraps(files.drop_last());
        let sum = total_size(files.drop_last()) + files.last().file_size;
        if sum > i64::MAX {
            k - 1
        } else if sum < i64::MIN {
            k + 1
        } else {
            k
        }
    }
}

/// The size of a group is the sum of the sizes of its files, where this sum is
/// a 64-bit integer.
pub proof fn size_is_the_sum(files: Seq<EntryModel>)
    requires
        i64::MIN <= size_sum(files) <= i64::MAX,
    ensures
        total_size(files) == size_sum(files),
{
    let k = lemma_size_wraps(files);
}

} // verus!
