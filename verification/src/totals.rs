//! The totals of what is shown: every file is counted once, with its size.

use vstd::prelude::*;

use crate::grouping::{
    distinct, distinct_keys_are_the_keys, entries, every_file_is_in_one_group, files_in, group_keys,
    groups_of, placed_in, size_is_the_sum, size_sum, PlacementModel,
};
use crate::groups::{sorted_groups, GroupModel};
use crate::library::{
    directories_of, directory_key, directory_keys, directory_sort_key, every_file_is_in_one_directory,
    files_counted, files_in_directory, of_kind, placements_of, shown_directories, shown_groups,
    size_of_files, DirectoryModel,
};
use crate::media::ResourceVariant;
use crate::order::{key_is, lemma_place_splits, place, stable_sorted};
use crate::rules::{placement_of, LibraryRules};
use crate::unicode::lowercase;

verus! {

// ---------------------------------------------------------------------------
// Sums
// ---------------------------------------------------------------------------

/// The sum of what is measured of items.
pub open spec fn sum_of<T>(items: Seq<T>, measure: spec_fn(T) -> int) -> int
    decreases items.len(),
{
    if items.len() == 0 {
        0
    } else {
        sum_of(items.drop_last(), measure) + measure(items.last())
    }
}

proof fn lemma_sum_insert<T>(items: Seq<T>, at: int, item: T, measure: spec_fn(T) -> int)
    requires
        0 <= at <= items.len(),
    ensures
        sum_of(items.insert(at, item), measure) == sum_of(items, measure) + measure(item),
    decreases items.len(),
{
    let after = items.insert(at, item);
    if at == items.len() {
        assert(after.drop_last() =~= items);
    } else {
        lemma_sum_insert(items.drop_last(), at, item, measure);
        assert(after.drop_last() =~= items.drop_last().insert(at, item));
        assert(after.last() == items.last());
    }
}

proof fn lemma_sum_sorted<T>(
    items: Seq<T>,
    key: spec_fn(T) -> Seq<char>,
    measure: spec_fn(T) -> int,
)
    ensures
        sum_of(stable_sorted(items, key), measure) == sum_of(items, measure),
    decreases items.len(),
{
    if items.len() > 0 {
        let before = stable_sorted(items.drop_last(), key);
        lemma_sum_sorted(items.drop_last(), key, measure);
        let keys = before.map_values(key);
        lemma_place_splits(keys, key(items.last()));
        lemma_sum_insert(before, place(keys, key(items.last())), items.last(), measure);
    }
}

/// The sum over the items of each key, key by key.
spec fn sum_by_key<T>(
    items: Seq<T>,
    keys: Seq<Seq<char>>,
    key: spec_fn(T) -> Seq<char>,
    measure: spec_fn(T) -> int,
) -> int
    decreases keys.len(),
{
    if keys.len() == 0 {
        0
    } else {
        sum_by_key(items, keys.drop_last(), key, measure) + sum_of(
            items.filter(key_is(key, keys.last())),
            measure,
        )
    }
}

proof fn lemma_sum_by_key_push<T>(
    items: Seq<T>,
    item: T,
    keys: Seq<Seq<char>>,
    key: spec_fn(T) -> Seq<char>,
    measure: spec_fn(T) -> int,
)
    requires
        keys.no_duplicates(),
    ensures
        sum_by_key(items.push(item), keys, key, measure) == sum_by_key(items, keys, key, measure) + (
        if keys.contains(key(item)) {
            measure(item)
        } else {
            0
        }),
    decreases keys.len(),
{
    if keys.len() > 0 {
        let rest = keys.drop_last();
        let keep = key_is(key, keys.last());
        lemma_sum_by_key_push(items, item, rest, key, measure);
        reveal(Seq::filter);
        assert(items.push(item).drop_last() =~= items);
        if keep(item) {
            assert(items.filter(keep).push(item).drop_last() =~= items.filter(keep));
            assert(keys[keys.len() - 1] == key(item));
        }
        if rest.contains(key(item)) {
            let i = choose|i: int| 0 <= i < rest.len() && rest[i] == key(item);
            assert(keys[i] == key(item));
            assert(keys[i] != keys[keys.len() - 1]);
        }
        if keys.contains(key(item)) && !keep(item) {
            let i = choose|i: int| 0 <= i < keys.len() && keys[i] == key(item);
            assert(rest[i] == key(item));
        }
    }
}

proof fn lemma_sum_by_key<T>(
    items: Seq<T>,
    keys: Seq<Seq<char>>,
    key: spec_fn(T) -> Seq<char>,
    measure: spec_fn(T) -> int,
)
    requires
        keys.no_duplicates(),
        forall|i: int| 0 <= i < items.len() ==> keys.contains(key(#[trigger] items[i])),
    ensures
        sum_by_key(items, keys, key, measure) == sum_of(items, measure),
    decreases items.len(),
{
    if items.len() == 0 {
        assert(items =~= Seq::empty());
        lemma_sum_by_key_of_nothing(keys, key, measure);
    } else {
        let before = items.drop_last();
        assert forall|i: int| 0 <= i < before.len() implies keys.contains(
            key(#[trigger] before[i]),
        ) by {
            assert(before[i] == items[i]);
        }
        lemma_sum_by_key(before, keys, key, measure);
        assert(items =~= before.push(items.last()));
        assert(keys.contains(key(items[items.len() - 1])));
        lemma_sum_by_key_push(before, items.last(), keys, key, measure);
    }
}

proof fn lemma_sum_by_key_of_nothing<T>(
    keys: Seq<Seq<char>>,
    key: spec_fn(T) -> Seq<char>,
    measure: spec_fn(T) -> int,
)
    ensures
        sum_by_key(Seq::<T>::empty(), keys, key, measure) == 0,
    decreases keys.len(),
{
    reveal(Seq::filter);
    if keys.len() > 0 {
        lemma_sum_by_key_of_nothing(keys.drop_last(), key, measure);
    }
}

/// Sums of lists that are made key by key add up to the sum of all.
proof fn lemma_sum_of_groups<T, G>(
    items: Seq<T>,
    groups: Seq<G>,
    keys: Seq<Seq<char>>,
    key: spec_fn(T) -> Seq<char>,
    measure: spec_fn(T) -> int,
    total: spec_fn(G) -> int,
)
    requires
        groups.len() == keys.len(),
        forall|i: int|
            0 <= i < groups.len() ==> total(#[trigger] groups[i]) == sum_of(
                items.filter(key_is(key, keys[i])),
                measure,
            ),
    ensures
        sum_of(groups, total) == sum_by_key(items, keys, key, measure),
    decreases keys.len(),
{
    if keys.len() > 0 {
        lemma_sum_of_groups(items, groups.drop_last(), keys.drop_last(), key, measure, total);
    }
}

// ---------------------------------------------------------------------------
// Groups
// ---------------------------------------------------------------------------

/// The size of a group.
pub open spec fn group_size() -> spec_fn(GroupModel) -> int {
    |g: GroupModel| g.total_size as int
}

/// The number of files in a group.
pub open spec fn group_count() -> spec_fn(GroupModel) -> int {
    |g: GroupModel| g.file_count as int
}

/// The size of a file.
pub open spec fn size_of() -> spec_fn(ResourceVariant) -> int {
    |f: ResourceVariant| f.file_size as int
}

proof fn lemma_sum_sorted_groups(groups: Seq<GroupModel>)
    ensures
        sum_of(sorted_groups(groups), group_size()) == sum_of(groups, group_size()),
        sum_of(sorted_groups(groups), group_count()) == sum_of(groups, group_count()),
    decreases groups.len(),
{
    if groups.len() > 0 {
        let before = sorted_groups(groups.drop_last());
        let last = groups.last();
        let group = GroupModel { child_groups: sorted_groups(last.child_groups), ..last };
        let keys = crate::groups::sort_keys(before);
        let at = place(keys, lowercase(group.name));
        lemma_sum_sorted_groups(groups.drop_last());
        lemma_place_splits(keys, lowercase(group.name));
        lemma_sum_insert(before, at, group, group_size());
        lemma_sum_insert(before, at, group, group_count());
    }
}

proof fn lemma_files_in_is_a_sum(groups: Seq<GroupModel>)
    ensures
        files_in(groups) == sum_of(groups, group_count()),
    decreases groups.len(),
{
    if groups.len() > 0 {
        lemma_files_in_is_a_sum(groups.drop_last());
    }
}

/// What the group of a placement is called by.
spec fn group_key() -> spec_fn(PlacementModel) -> Seq<char> {
    |p: PlacementModel| p.group.key
}

spec fn placed_size() -> spec_fn(PlacementModel) -> int {
    |p: PlacementModel| p.group.file_size as int
}

proof fn lemma_size_sum(placements: Seq<PlacementModel>)
    ensures
        size_sum(entries(placements)) == sum_of(placements, placed_size()),
    decreases placements.len(),
{
    if placements.len() > 0 {
        lemma_size_sum(placements.drop_last());
        assert(entries(placements).drop_last() =~= entries(placements.drop_last()));
    }
}

proof fn lemma_placed_sizes(files: Seq<ResourceVariant>, rules: LibraryRules, windows: bool)
    ensures
        sum_of(placements_of(files, rules, windows), placed_size()) == sum_of(files, size_of()),
    decreases files.len(),
{
    if files.len() > 0 {
        lemma_placed_sizes(files.drop_last(), rules, windows);
        assert(placements_of(files, rules, windows).drop_last() =~= placements_of(
            files.drop_last(),
            rules,
            windows,
        ));
        assert(placement_of(files.last(), rules, windows).group.file_size
            == files.last().file_size);
    }
}

/// The sizes of the files of a kind that stand in a group.
pub open spec fn size_in_group(
    files: Seq<ResourceVariant>,
    kind: Seq<char>,
    rules: LibraryRules,
    windows: bool,
    key: Seq<char>,
) -> int {
    size_sum(entries(placed_in(placements_of(of_kind(files, kind), rules, windows), key)))
}

/// Without a search, every file of a kind is counted in exactly one of the
/// groups that are shown.
pub proof fn shown_groups_count_every_file(
    files: Seq<ResourceVariant>,
    kind: Seq<char>,
    rules: LibraryRules,
    windows: bool,
)
    ensures
        files_in(shown_groups(files, kind, rules, None, windows)) == of_kind(files, kind).len(),
{
    let placements = placements_of(of_kind(files, kind), rules, windows);
    every_file_is_in_one_group(placements);
    lemma_sum_sorted_groups(groups_of(placements));
    lemma_files_in_is_a_sum(groups_of(placements));
    lemma_files_in_is_a_sum(sorted_groups(groups_of(placements)));
}

/// Without a search, the sizes of the groups that are shown add up to the sizes
/// of the files of their kind, where the size of every group is a 64-bit
/// integer.
pub proof fn shown_groups_add_up(
    files: Seq<ResourceVariant>,
    kind: Seq<char>,
    rules: LibraryRules,
    windows: bool,
)
    requires
        forall|key: Seq<char>|
            i64::MIN <= #[trigger] size_in_group(files, kind, rules, windows, key) <= i64::MAX,
    ensures
        sum_of(shown_groups(files, kind, rules, None, windows), group_size()) == sum_of(
            of_kind(files, kind),
            size_of(),
        ),
{
    let placements = placements_of(of_kind(files, kind), rules, windows);
    let groups = groups_of(placements);
    let all = group_keys(placements);
    let keys = distinct(all);
    distinct_keys_are_the_keys(all);
    assert forall|i: int| 0 <= i < groups.len() implies group_size()(#[trigger] groups[i]) == sum_of(
        placements.filter(key_is(group_key(), keys[i])),
        placed_size(),
    ) by {
        let placed = placed_in(placements, keys[i]);
        let keep = |p: PlacementModel| p.group.key == keys[i];
        assert(keep =~= key_is(group_key(), keys[i]));
        assert(i64::MIN <= size_in_group(files, kind, rules, windows, keys[i]) <= i64::MAX);
        size_is_the_sum(entries(placed));
        lemma_size_sum(placed);
    }
    assert forall|i: int| 0 <= i < placements.len() implies keys.contains(
        group_key()(#[trigger] placements[i]),
    ) by {
        assert(all[i] == placements[i].group.key);
        assert(all.contains(all[i]));
    }
    lemma_sum_of_groups(placements, groups, keys, group_key(), placed_size(), group_size());
    lemma_sum_by_key(placements, keys, group_key(), placed_size());
    lemma_placed_sizes(of_kind(files, kind), rules, windows);
    lemma_sum_sorted_groups(groups);
}

// ---------------------------------------------------------------------------
// Directories
// ---------------------------------------------------------------------------

/// The size of a directory.
pub open spec fn directory_size() -> spec_fn(DirectoryModel) -> int {
    |d: DirectoryModel| d.total_size as int
}

/// The number of files in a directory.
pub open spec fn directory_count() -> spec_fn(DirectoryModel) -> int {
    |d: DirectoryModel| d.file_count as int
}

spec fn key_of_directory(windows: bool) -> spec_fn(ResourceVariant) -> Seq<char> {
    |f: ResourceVariant| directory_key(f, windows)
}

proof fn lemma_files_counted_is_a_sum(directories: Seq<DirectoryModel>)
    ensures
        files_counted(directories) == sum_of(directories, directory_count()),
    decreases directories.len(),
{
    if directories.len() > 0 {
        lemma_files_counted_is_a_sum(directories.drop_last());
    }
}

proof fn lemma_file_sizes_wrap(files: Seq<ResourceVariant>) -> (k: int)
    ensures
        size_of_files(files) == sum_of(files, size_of()) + k * 0x1_0000_0000_0000_0000,
    decreases files.len(),
{
    if files.len() == 0 {
        0
    } else {
        let k = lemma_file_sizes_wrap(files.drop_last());
        let sum = size_of_files(files.drop_last()) + files.last().file_size;
        if sum > i64::MAX {
            k - 1
        } else if sum < i64::MIN {
            k + 1
        } else {
            k
        }
    }
}

/// The sizes of the files of a kind that lie in a directory.
pub open spec fn size_in_directory(
    files: Seq<ResourceVariant>,
    kind: Seq<char>,
    windows: bool,
    key: Seq<char>,
) -> int {
    sum_of(files_in_directory(of_kind(files, kind), key, windows), size_of())
}

/// Without a search, every file of a kind is counted in exactly one of the
/// directories that are shown.
pub proof fn shown_directories_count_every_file(
    files: Seq<ResourceVariant>,
    kind: Seq<char>,
    windows: bool,
)
    ensures
        files_counted(shown_directories(files, kind, None, windows)) == of_kind(files, kind).len(),
{
    let directories = directories_of(of_kind(files, kind), windows);
    every_file_is_in_one_directory(of_kind(files, kind), windows);
    lemma_sum_sorted(
        directories,
        |d: DirectoryModel| directory_sort_key(d),
        directory_count(),
    );
    lemma_files_counted_is_a_sum(directories);
    lemma_files_counted_is_a_sum(shown_directories(files, kind, None, windows));
}

/// Without a search, the sizes of the directories that are shown add up to the
/// sizes of the files of their kind, where the size of every directory is a
/// 64-bit integer.
pub proof fn shown_directories_add_up(
    files: Seq<ResourceVariant>,
    kind: Seq<char>,
    windows: bool,
)
    requires
        forall|key: Seq<char>|
            i64::MIN <= #[trigger] size_in_directory(files, kind, windows, key) <= i64::MAX,
    ensures
        sum_of(shown_directories(files, kind, None, windows), directory_size()) == sum_of(
            of_kind(files, kind),
            size_of(),
        ),
{
    let held = of_kind(files, kind);
    let directories = directories_of(held, windows);
    let all = directory_keys(held, windows);
    let keys = distinct(all);
    let key = key_of_directory(windows);
    distinct_keys_are_the_keys(all);
    assert forall|i: int| 0 <= i < directories.len() implies directory_size()(
        #[trigger] directories[i],
    ) == sum_of(held.filter(key_is(key, keys[i])), size_of()) by {
        let placed = files_in_directory(held, keys[i], windows);
        let keep = |f: ResourceVariant| directory_key(f, windows) == keys[i];
        assert(keep =~= key_is(key, keys[i]));
        assert(i64::MIN <= size_in_directory(files, kind, windows, keys[i]) <= i64::MAX);
        let k = lemma_file_sizes_wrap(placed);
    }
    assert forall|i: int| 0 <= i < held.len() implies keys.contains(key(#[trigger] held[i])) by {
        assert(all[i] == directory_key(held[i], windows));
        assert(all.contains(all[i]));
    }
    lemma_sum_of_groups(held, directories, keys, key, size_of(), directory_size());
    lemma_sum_by_key(held, keys, key, size_of());
    lemma_sum_sorted(directories, |d: DirectoryModel| directory_sort_key(d), directory_size());
}

} // verus!
