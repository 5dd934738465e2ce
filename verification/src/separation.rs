//! Music and videos are kept apart: what is shown of a kind depends on the
//! files of this kind alone.

use vstd::prelude::*;

use crate::grouping::{
    child_placements, distinct_keys_are_the_keys, entries, flat_groups, group_keys, groups_of,
    lemma_placed_in, placed_in, PlacementModel,
};
use crate::groups::{found_groups, sort_keys, sorted_groups, GroupModel};
use crate::library::{
    file_found, found_group_keys, is_placed_in, is_shown, kind_is, lemma_filter, of_kind,
    placements_of, shown_groups,
};
use crate::media::ResourceVariant;
use crate::order::{lemma_place_splits, place};
use crate::rules::{placement_of, LibraryRules};
use crate::titles::{kinds_keep_groups_apart, source_key};
use crate::unicode::lowercase;

verus! {

/// A key is that of a group of a kind.
spec fn is_key_of(kind: Seq<char>) -> spec_fn(Seq<char>) -> bool {
    |key: Seq<char>| exists|name: Seq<char>| key == #[trigger] source_key(kind, name)
}

/// The kind of the groups of files of a kind.
spec fn group_kind(kind: Seq<char>) -> Seq<char> {
    if kind == "music"@ {
        "music_artist"@
    } else {
        "video_series"@
    }
}

/// The keys of groups, at every level, have a property.
spec fn all_keys(groups: Seq<GroupModel>, good: spec_fn(Seq<char>) -> bool) -> bool
    decreases groups,
{
    forall|i: int|
        0 <= i < groups.len() ==> good((#[trigger] groups[i]).key) && all_keys(
            groups[i].child_groups,
            good,
        )
}

/// The groups of a placement have a property.
spec fn is_placed_well(placement: PlacementModel, good: spec_fn(Seq<char>) -> bool) -> bool {
    good(placement.group.key) && (placement.child is Some ==> good(placement.child->0.key))
}

proof fn lemma_sorting_keeps_keys(groups: Seq<GroupModel>, good: spec_fn(Seq<char>) -> bool)
    requires
        all_keys(groups, good),
    ensures
        all_keys(sorted_groups(groups), good),
    decreases groups,
{
    if groups.len() > 0 {
        let rest = groups.drop_last();
        let last = groups.last();
        assert(good(groups[groups.len() - 1].key));
        assert forall|i: int| 0 <= i < rest.len() implies good((#[trigger] rest[i]).key)
            && all_keys(rest[i].child_groups, good) by {
            assert(rest[i] == groups[i]);
        }
        lemma_sorting_keeps_keys(rest, good);
        lemma_sorting_keeps_keys(last.child_groups, good);
        let before = sorted_groups(rest);
        let group = GroupModel { child_groups: sorted_groups(last.child_groups), ..last };
        let p = place(sort_keys(before), lowercase(group.name));
        lemma_place_splits(sort_keys(before), lowercase(group.name));
        let sorted = sorted_groups(groups);
        assert forall|i: int| 0 <= i < sorted.len() implies good((#[trigger] sorted[i]).key)
            && all_keys(sorted[i].child_groups, good) by {
            if i < p {
                assert(sorted[i] == before[i]);
            } else if i > p {
                assert(sorted[i] == before[i - 1]);
            }
        }
    }
}

/// A search finds the same groups where the same of their keys are found.
proof fn lemma_same_keys_found(
    groups: Seq<GroupModel>,
    search: Seq<char>,
    found: Set<Seq<char>>,
    other: Set<Seq<char>>,
    good: spec_fn(Seq<char>) -> bool,
)
    requires
        all_keys(groups, good),
        forall|key: Seq<char>| #[trigger] good(key) ==> found.contains(key) == other.contains(key),
    ensures
        found_groups(groups, search, found) == found_groups(groups, search, other),
    decreases groups,
{
    if groups.len() > 0 {
        let rest = groups.drop_last();
        let last = groups.last();
        assert(good(groups[groups.len() - 1].key));
        assert forall|i: int| 0 <= i < rest.len() implies good((#[trigger] rest[i]).key)
            && all_keys(rest[i].child_groups, good) by {
            assert(rest[i] == groups[i]);
        }
        lemma_same_keys_found(rest, search, found, other, good);
        lemma_same_keys_found(last.child_groups, search, found, other, good);
    }
}

proof fn lemma_key_is_placed(placements: Seq<PlacementModel>, key: Seq<char>)
    requires
        group_keys(placements).contains(key),
    ensures
        placed_in(placements, key).len() > 0,
        entries(placed_in(placements, key))[0].key == key,
        forall|i: int|
            0 <= i < placed_in(placements, key).len() ==> placements.contains(
                #[trigger] placed_in(placements, key)[i],
            ),
        exists|i: int| 0 <= i < placements.len() && (#[trigger] placements[i]).group.key == key,
{
    lemma_placed_in(placements, key);
    let keep = |p: PlacementModel| p.group.key == key;
    lemma_filter(placements, keep);
    let placed = placed_in(placements, key);
    assert(placed[0].group.key == key);
    let i = choose|i: int|
        0 <= i < group_keys(placements).len() && group_keys(placements)[i] == key;
    assert(placements[i].group.key == key);
    assert forall|j: int| 0 <= j < placed.len() implies placements.contains(#[trigger] placed[j]) by {
        assert(placements.contains(placements.filter(keep)[j]));
    }
}

proof fn lemma_flat_keys(placements: Seq<PlacementModel>, good: spec_fn(Seq<char>) -> bool)
    requires
        forall|i: int| 0 <= i < placements.len() ==> good((#[trigger] placements[i]).group.key),
    ensures
        all_keys(flat_groups(placements), good),
{
    let groups = flat_groups(placements);
    let all = group_keys(placements);
    let keys = crate::grouping::distinct(all);
    distinct_keys_are_the_keys(all);
    assert forall|i: int| 0 <= i < groups.len() implies good((#[trigger] groups[i]).key)
        && all_keys(groups[i].child_groups, good) by {
        assert(keys.contains(keys[i]));
        lemma_key_is_placed(placements, keys[i]);
        assert(groups[i].child_groups =~= Seq::empty());
    }
}

proof fn lemma_children_are_good(placements: Seq<PlacementModel>, good: spec_fn(Seq<char>) -> bool)
    requires
        forall|i: int| 0 <= i < placements.len() ==> is_placed_well(#[trigger] placements[i], good),
    ensures
        forall|i: int|
            0 <= i < child_placements(placements).len() ==> good(
                (#[trigger] child_placements(placements)[i]).group.key,
            ),
    decreases placements.len(),
{
    if placements.len() > 0 {
        let rest = placements.drop_last();
        assert forall|i: int| 0 <= i < rest.len() implies is_placed_well(
            #[trigger] rest[i],
            good,
        ) by {
            assert(rest[i] == placements[i]);
        }
        lemma_children_are_good(rest, good);
        assert(is_placed_well(placements[placements.len() - 1], good));
        assert forall|i: int| 0 <= i < child_placements(placements).len() implies good(
            (#[trigger] child_placements(placements)[i]).group.key,
        ) by {
            if i < child_placements(rest).len() {
                assert(child_placements(placements)[i] == child_placements(rest)[i]);
            }
        }
    }
}

proof fn lemma_group_keys(placements: Seq<PlacementModel>, good: spec_fn(Seq<char>) -> bool)
    requires
        forall|i: int| 0 <= i < placements.len() ==> is_placed_well(#[trigger] placements[i], good),
    ensures
        all_keys(groups_of(placements), good),
{
    let groups = groups_of(placements);
    let all = group_keys(placements);
    let keys = crate::grouping::distinct(all);
    distinct_keys_are_the_keys(all);
    assert forall|i: int| 0 <= i < groups.len() implies good((#[trigger] groups[i]).key)
        && all_keys(groups[i].child_groups, good) by {
        assert(keys.contains(keys[i]));
        lemma_key_is_placed(placements, keys[i]);
        let placed = placed_in(placements, keys[i]);
        assert forall|j: int| 0 <= j < placed.len() implies is_placed_well(
            #[trigger] placed[j],
            good,
        ) by {
            assert(placements.contains(placed[j]));
        }
        let at = choose|at: int|
            0 <= at < placements.len() && (#[trigger] placements[at]).group.key == keys[i];
        assert(is_placed_well(placements[at], good));
        lemma_children_are_good(placed, good);
        lemma_flat_keys(child_placements(placed), good);
        lemma_sorting_keeps_keys(flat_groups(child_placements(placed)), good);
    }
}

proof fn lemma_file_is_placed_well(file: ResourceVariant, rules: LibraryRules, windows: bool)
    requires
        is_shown(file),
    ensures
        is_placed_well(
            placement_of(file, rules, windows),
            is_key_of(group_kind(file.media_kind@)),
        ),
{
    reveal_strlit("music");
    reveal_strlit("video");
    assert("music"@[0] != "video"@[0]);
}

proof fn lemma_kinds_differ(key: Seq<char>)
    ensures
        !(is_key_of("music_artist"@)(key) && is_key_of("video_series"@)(key)),
{
    if is_key_of("music_artist"@)(key) && is_key_of("video_series"@)(key) {
        let a = choose|name: Seq<char>| key == #[trigger] source_key("music_artist"@, name);
        let b = choose|name: Seq<char>| key == #[trigger] source_key("video_series"@, name);
        reveal_strlit("music_artist");
        reveal_strlit("video_series");
        assert(!"music_artist"@.contains(':'));
        assert(!"video_series"@.contains(':'));
        kinds_keep_groups_apart("music_artist"@, "video_series"@, a, b);
        assert("music_artist"@[0] != "video_series"@[0]);
    }
}

/// Of the groups of a kind, those with found files are told by the files of
/// this kind.
proof fn lemma_found_keys_of_kind(
    files: Seq<ResourceVariant>,
    kind: Seq<char>,
    rules: LibraryRules,
    search: Seq<char>,
    windows: bool,
    key: Seq<char>,
)
    requires
        kind == "music"@ || kind == "video"@,
        is_key_of(group_kind(kind))(key),
    ensures
        found_group_keys(files, rules, search, windows).contains(key) == found_group_keys(
            of_kind(files, kind),
            rules,
            search,
            windows,
        ).contains(key),
{
    let held = of_kind(files, kind);
    reveal_strlit("music");
    reveal_strlit("video");
    assert("music"@[0] != "video"@[0]);
    lemma_kinds_differ(key);
    lemma_filter(files, kind_is(kind));
    if found_group_keys(files, rules, search, windows).contains(key) {
        let i = choose|i: int|
            0 <= i < files.len() && is_shown(#[trigger] files[i]) && file_found(files[i], search)
                && is_placed_in(placement_of(files[i], rules, windows), key);
        lemma_file_is_placed_well(files[i], rules, windows);
        assert(is_key_of(group_kind(files[i].media_kind@))(key));
        assert(files[i].media_kind@ == kind);
        assert(kind_is(kind)(files[i]));
        assert(held.contains(files[i]));
        let j = choose|j: int| 0 <= j < held.len() && held[j] == files[i];
        assert(is_shown(held[j]));
    }
    if found_group_keys(held, rules, search, windows).contains(key) {
        let j = choose|j: int|
            0 <= j < held.len() && is_shown(#[trigger] held[j]) && file_found(held[j], search)
                && is_placed_in(placement_of(held[j], rules, windows), key);
        assert(files.contains(files.filter(kind_is(kind))[j]));
        let i = choose|i: int| 0 <= i < files.len() && files[i] == held[j];
        assert(is_shown(files[i]));
    }
}

/// A search keeps music and videos apart: the groups that are shown of a kind
/// depend on the files of this kind alone.
pub proof fn groups_of_a_kind_stand_alone(
    files: Seq<ResourceVariant>,
    others: Seq<ResourceVariant>,
    kind: Seq<char>,
    rules: LibraryRules,
    search: Option<Seq<char>>,
    windows: bool,
)
    requires
        kind == "music"@ || kind == "video"@,
        of_kind(files, kind) == of_kind(others, kind),
    ensures
        shown_groups(files, kind, rules, search, windows) == shown_groups(
            others,
            kind,
            rules,
            search,
            windows,
        ),
{
    if let Some(text) = search {
        let held = of_kind(files, kind);
        let good = is_key_of(group_kind(kind));
        let placements = placements_of(held, rules, windows);
        lemma_filter(files, kind_is(kind));
        assert forall|i: int| 0 <= i < placements.len() implies is_placed_well(
            #[trigger] placements[i],
            good,
        ) by {
            assert(kind_is(kind)(files.filter(kind_is(kind))[i]));
            assert(placements[i] == placement_of(held[i], rules, windows));
            lemma_file_is_placed_well(held[i], rules, windows);
        }
        lemma_group_keys(placements, good);
        let found = found_group_keys(files, rules, text, windows);
        let other = found_group_keys(others, rules, text, windows);
        assert forall|key: Seq<char>| #[trigger] good(key) implies found.contains(key)
            == other.contains(key) by {
            lemma_found_keys_of_kind(files, kind, rules, text, windows, key);
            lemma_found_keys_of_kind(others, kind, rules, text, windows, key);
        }
        lemma_same_keys_found(groups_of(placements), text, found, other, good);
    }
}

} // verus!
